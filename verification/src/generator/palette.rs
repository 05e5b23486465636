//! Which classes get a colour of their own, in which order, and at which
//! hue.
//!
//! The keys of the classes are kept as a list without repeats in the order
//! of texts; such a list is fixed by the set of its items, so the colours do
//! not depend on the order in which the lessons are met.

use crate::generator::{class_key_text, is_assembly, lesson_key};
use crate::text::{
    chars_of, lemma_text_lt_irreflexive, lemma_text_lt_total, lemma_text_lt_transitive,
    same_text, text_before, text_lt,
};
use crate::types::{
    text_option_view, texts, Day, Lesson, LessonView, Timetable, Week, ASSEMBLY,
};
use vstd::prelude::*;

verus! {

/// Whether the lesson's class gets a colour of its own: every occupied
/// period does but the assembly.
pub open spec fn is_subject(lesson: LessonView) -> bool {
    lesson is Present && !is_assembly(lesson)
}

/// The keys of the classes among `lessons` that get a colour of their own.
pub open spec fn key_set(lessons: Seq<LessonView>) -> Set<Seq<char>> {
    Set::new(
        |key: Seq<char>|
            exists|i: int|
                0 <= i < lessons.len() && is_subject(#[trigger] lessons[i]) && lesson_key(
                    lessons[i],
                ) == key,
    )
}

/// The key of the last assembly among `lessons`, if there is one.
pub open spec fn last_assembly(lessons: Seq<LessonView>) -> Option<Seq<char>>
    decreases lessons.len(),
{
    if lessons.len() == 0 {
        None
    } else if is_assembly(lessons.last()) {
        Some(lesson_key(lessons.last()))
    } else {
        last_assembly(lessons.drop_last())
    }
}

/// Whether each key comes before all that follow it, in the order of texts.
pub open spec fn strictly_sorted(keys: Seq<Seq<char>>) -> bool {
    forall|i: int, j: int|
        0 <= i < j < keys.len() ==> text_lt(#[trigger] keys[i], #[trigger] keys[j])
}

/// Whether `keys` lists exactly the items of `set`, each once, in the order
/// of texts.
pub open spec fn is_sorted_form(keys: Seq<Seq<char>>, set: Set<Seq<char>>) -> bool {
    strictly_sorted(keys) && keys.to_set() == set
}

/// The items of `set` in the order of texts.
pub open spec fn sorted_keys(set: Set<Seq<char>>) -> Seq<Seq<char>> {
    choose|keys: Seq<Seq<char>>| is_sorted_form(keys, set)
}

/// The distance in degrees between the hues of `count` classes: the colour
/// wheel divided by one more than their number.
pub open spec fn hue_step(count: nat) -> nat {
    360nat / (count + 1) as nat
}

/// The hue of the class at position `i` of `count` classes.
pub open spec fn hue_at(count: nat, i: nat) -> nat {
    i * hue_step(count)
}

/// A set of keys has one sorted form only: two lists without repeats in the
/// order of texts that hold the same keys are the same list. So the order in
/// which keys were met leaves no trace in their sorted form, nor in the hue
/// that each key gets by its position there.
pub proof fn lemma_sorted_form_unique(a: Seq<Seq<char>>, b: Seq<Seq<char>>)
    requires
        strictly_sorted(a),
        strictly_sorted(b),
        a.to_set() == b.to_set(),
    ensures
        a == b,
    decreases a.len(),
{
    if a.len() == 0 {
        if b.len() > 0 {
            assert(b.contains(b[0]));
            assert(b.to_set().contains(b[0]));
            assert(a.contains(b[0]));
        }
        assert(a =~= b);
    } else {
        assert(a.contains(a[0]));
        assert(a.to_set().contains(a[0]));
        assert(b.contains(a[0]));
        let j = choose|j: int| 0 <= j < b.len() && b[j] == a[0];
        assert(b.contains(b[0]));
        assert(b.to_set().contains(b[0]));
        assert(a.contains(b[0]));
        let i = choose|i: int| 0 <= i < a.len() && a[i] == b[0];
        if j > 0 {
            assert(text_lt(b[0], b[j]));
            if i > 0 {
                assert(text_lt(a[0], a[i]));
                lemma_text_lt_transitive(a[0], b[0], a[0]);
            }
            lemma_text_lt_irreflexive(a[0]);
        }
        assert(a[0] == b[0]);
        let rest_a = a.drop_first();
        let rest_b = b.drop_first();
        assert(strictly_sorted(rest_a)) by {
            assert forall|p: int, q: int| 0 <= p < q < rest_a.len() implies text_lt(
                #[trigger] rest_a[p],
                #[trigger] rest_a[q],
            ) by {
                assert(text_lt(a[p + 1], a[q + 1]));
            }
        }
        assert(strictly_sorted(rest_b)) by {
            assert forall|p: int, q: int| 0 <= p < q < rest_b.len() implies text_lt(
                #[trigger] rest_b[p],
                #[trigger] rest_b[q],
            ) by {
                assert(text_lt(b[p + 1], b[q + 1]));
            }
        }
        assert(rest_a.to_set() =~= rest_b.to_set()) by {
            assert forall|k: Seq<char>| rest_a.to_set().contains(k) implies rest_b.to_set().contains(
                k,
            ) by {
                lemma_tail_holds(a, b, k);
            }
            assert forall|k: Seq<char>| rest_b.to_set().contains(k) implies rest_a.to_set().contains(
                k,
            ) by {
                lemma_tail_holds(b, a, k);
            }
        }
        lemma_sorted_form_unique(rest_a, rest_b);
        assert(a =~= seq![a[0]] + rest_a);
        assert(b =~= seq![b[0]] + rest_b);
    }
}

/// A sorted list of keys holds no key twice, so it is as long as its keys
/// are many.
pub proof fn lemma_sorted_form_count(keys: Seq<Seq<char>>)
    requires
        strictly_sorted(keys),
    ensures
        keys.no_duplicates(),
        keys.to_set().finite(),
        keys.to_set().len() == keys.len(),
{
    assert forall|i: int, j: int| 0 <= i < keys.len() && 0 <= j < keys.len() && i != j implies keys[i]
        != keys[j] by {
        if i < j {
            assert(text_lt(keys[i], keys[j]));
        } else {
            assert(text_lt(keys[j], keys[i]));
        }
        lemma_text_lt_irreflexive(keys[i]);
    }
    keys.unique_seq_to_set();
    vstd::seq_lib::seq_to_set_is_finite(keys);
}

/// The colours do not depend on the order of the lessons. Two runs of
/// lessons with the same classes, met in whatever order and however often,
/// have the same keys in the same sorted order, and so the same hue at each
/// position.
pub proof fn lemma_hues_ignore_lesson_order(
    a: Seq<LessonView>,
    b: Seq<LessonView>,
    keys_a: Seq<Seq<char>>,
    keys_b: Seq<Seq<char>>,
)
    requires
        key_set(a) == key_set(b),
        is_sorted_form(keys_a, key_set(a)),
        is_sorted_form(keys_b, key_set(b)),
    ensures
        keys_a == keys_b,
        forall|i: nat| hue_at(keys_a.len(), i) == hue_at(keys_b.len(), i),
{
    lemma_sorted_form_unique(keys_a, keys_b);
}

/// Of two sorted lists with the same keys and the same first key, what the
/// one holds after its first key the other holds after its first key too.
proof fn lemma_tail_holds(a: Seq<Seq<char>>, b: Seq<Seq<char>>, k: Seq<char>)
    requires
        strictly_sorted(a),
        strictly_sorted(b),
        a.to_set() == b.to_set(),
        a.len() > 0,
        b.len() > 0,
        a[0] == b[0],
        a.drop_first().to_set().contains(k),
    ensures
        b.drop_first().to_set().contains(k),
{
    let rest_a = a.drop_first();
    assert(rest_a.contains(k));
    let p = choose|p: int| 0 <= p < rest_a.len() && rest_a[p] == k;
    assert(a[p + 1] == k);
    assert(text_lt(a[0], a[p + 1]));
    assert(a.contains(k));
    assert(a.to_set().contains(k));
    assert(b.contains(k));
    let q = choose|q: int| 0 <= q < b.len() && b[q] == k;
    if q == 0 {
        lemma_text_lt_irreflexive(k);
    }
    assert(b.drop_first()[q - 1] == k);
    assert(b.drop_first().contains(k));
}

/// The keys of a run of lessons with one more lesson at its end.
pub proof fn lemma_key_set_push(lessons: Seq<LessonView>, lesson: LessonView)
    ensures
        key_set(lessons.push(lesson)) == if is_subject(lesson) {
            key_set(lessons).insert(lesson_key(lesson))
        } else {
            key_set(lessons)
        },
{
    let more = lessons.push(lesson);
    let expected = if is_subject(lesson) {
        key_set(lessons).insert(lesson_key(lesson))
    } else {
        key_set(lessons)
    };
    assert forall|k: Seq<char>| key_set(more).contains(k) implies expected.contains(k) by {
        let i = choose|i: int|
            0 <= i < more.len() && is_subject(#[trigger] more[i]) && lesson_key(more[i]) == k;
        if i < lessons.len() {
            assert(more[i] == lessons[i]);
            assert(is_subject(lessons[i]) && lesson_key(lessons[i]) == k);
        }
    }
    assert forall|k: Seq<char>| expected.contains(k) implies key_set(more).contains(k) by {
        if key_set(lessons).contains(k) {
            let i = choose|i: int|
                0 <= i < lessons.len() && is_subject(#[trigger] lessons[i]) && lesson_key(
                    lessons[i],
                ) == k;
            assert(more[i] == lessons[i]);
            assert(is_subject(more[i]) && lesson_key(more[i]) == k);
        } else {
            let last = more.len() - 1;
            assert(more[last] == lesson);
            assert(is_subject(more[last]) && lesson_key(more[last]) == k);
        }
    }
    assert(key_set(more) =~= expected);
}

/// The keys of two runs of lessons, one after the other, are the keys of
/// both.
pub proof fn lemma_key_set_concat(a: Seq<LessonView>, b: Seq<LessonView>)
    ensures
        key_set(a + b) == key_set(a).union(key_set(b)),
    decreases b.len(),
{
    if b.len() == 0 {
        assert(a + b =~= a);
        assert(key_set(b) =~= Set::empty());
        assert(key_set(a).union(key_set(b)) =~= key_set(a));
    } else {
        let front = b.drop_last();
        lemma_key_set_concat(a, front);
        assert(a + b =~= (a + front).push(b.last()));
        assert(b =~= front.push(b.last()));
        lemma_key_set_push(a + front, b.last());
        lemma_key_set_push(front, b.last());
        assert(key_set(a + b) =~= key_set(a).union(key_set(b)));
    }
}

/// The last assembly of two runs of lessons, one after the other, is that of
/// the second run, or else that of the first.
pub proof fn lemma_last_assembly_concat(a: Seq<LessonView>, b: Seq<LessonView>)
    ensures
        last_assembly(a + b) == match last_assembly(b) {
            Some(key) => Some(key),
            None => last_assembly(a),
        },
    decreases b.len(),
{
    if b.len() == 0 {
        assert(a + b =~= a);
    } else {
        assert((a + b).drop_last() =~= a + b.drop_last());
        assert((a + b).last() == b.last());
        lemma_last_assembly_concat(a, b.drop_last());
    }
}

/// A set of keys, kept as a list without repeats in the order of texts. Its
/// view is that list.
#[derive(Debug, PartialEq)]
pub struct KeySet {
    keys: Vec<String>,
}

impl View for KeySet {
    type V = Seq<Seq<char>>;

    closed spec fn view(&self) -> Seq<Seq<char>> {
        texts(self.keys@)
    }
}

impl KeySet {
    #[verifier::type_invariant]
    spec fn sorted(&self) -> bool {
        strictly_sorted(texts(self.keys@))
    }

    /// The set without keys.
    pub fn new() -> (set: KeySet)
        ensures
            set@ == Seq::<Seq<char>>::empty(),
    {
        let set = KeySet { keys: Vec::new() };
        proof {
            assert(set@ =~= Seq::<Seq<char>>::empty());
        }
        set
    }

    /// The keys of the set, in the order of texts.
    pub fn into_keys(self) -> (keys: Vec<String>)
        ensures
            texts(keys@) == self@,
            strictly_sorted(self@),
    {
        proof {
            use_type_invariant(&self);
        }
        self.keys
    }

    /// The set with `key` put in at its place in the order of texts, unless
    /// the set holds it already.
    pub fn insert(self, key: String) -> (more: KeySet)
        ensures
            strictly_sorted(more@),
            more@.to_set() == self@.to_set().insert(key@),
    {
        proof {
            use_type_invariant(&self);
        }
        KeySet { keys: insert_key(self.keys, key) }
    }
}

/// Puts `key` into a sorted list of keys, at its place in the order of
/// texts, unless the list holds it already.
fn insert_key(keys: Vec<String>, key: String) -> (more: Vec<String>)
    requires
        strictly_sorted(texts(keys@)),
    ensures
        strictly_sorted(texts(more@)),
        texts(more@).to_set() == texts(keys@).to_set().insert(key@),
{
    let mut keys = keys;
    let ghost old_keys = texts(keys@);
    let key_chars = chars_of(key.as_str());
    let mut at: usize = 0;
    let mut found: bool = false;
    while at < keys.len() && !found
        invariant
            at <= keys.len(),
            key_chars@ == key@,
            old_keys == texts(keys@),
            strictly_sorted(old_keys),
            forall|j: int| 0 <= j < at ==> text_lt(#[trigger] old_keys[j], key@),
            found ==> at < keys.len() && !text_lt(old_keys[at as int], key@),
        decreases keys.len() - at + if found { 0int } else { 1int },
    {
        let other = chars_of(keys[at].as_str());
        if text_before(&other, &key_chars) {
            at += 1;
        } else {
            found = true;
        }
    }
    if found && same_text(keys[at].as_str(), key.as_str()) {
        proof {
            assert(old_keys.contains(old_keys[at as int]));
            assert(old_keys.to_set().insert(key@) =~= old_keys.to_set());
        }
        return keys;
    }
    keys.insert(at, key);
    proof {
        let new_keys = texts(keys@);
        assert(new_keys =~= old_keys.insert(at as int, key@));
        if found {
            lemma_text_lt_total(old_keys[at as int], key@);
        }
        assert forall|i: int, j: int| 0 <= i < j < new_keys.len() implies text_lt(
            #[trigger] new_keys[i],
            #[trigger] new_keys[j],
        ) by {
            if j < at {
                assert(new_keys[i] == old_keys[i] && new_keys[j] == old_keys[j]);
            } else if j == at {
                assert(new_keys[i] == old_keys[i]);
            } else if i < at {
                assert(new_keys[i] == old_keys[i] && new_keys[j] == old_keys[j - 1]);
                assert(text_lt(old_keys[i], old_keys[j - 1]));
            } else if i == at {
                assert(new_keys[j] == old_keys[j - 1]);
                if j - 1 > at {
                    assert(text_lt(old_keys[at as int], old_keys[j - 1]));
                    lemma_text_lt_transitive(key@, old_keys[at as int], old_keys[j - 1]);
                }
            } else {
                assert(new_keys[i] == old_keys[i - 1] && new_keys[j] == old_keys[j - 1]);
            }
        }
        assert forall|k: Seq<char>| new_keys.to_set().contains(k) implies old_keys.to_set().insert(
            key@,
        ).contains(k) by {
            assert(new_keys.contains(k));
            let p = choose|p: int| 0 <= p < new_keys.len() && new_keys[p] == k;
            if p < at {
                assert(old_keys[p] == k);
                assert(old_keys.contains(k));
            } else if p > at {
                assert(old_keys[p - 1] == k);
                assert(old_keys.contains(k));
            }
        }
        assert forall|k: Seq<char>| old_keys.to_set().insert(key@).contains(k) implies new_keys.to_set().contains(
            k,
        ) by {
            if k == key@ {
                assert(new_keys[at as int] == k);
                assert(new_keys.contains(k));
            } else {
                assert(old_keys.contains(k));
                let p = choose|p: int| 0 <= p < old_keys.len() && old_keys[p] == k;
                if p < at {
                    assert(new_keys[p] == k);
                } else {
                    assert(new_keys[p + 1] == k);
                }
                assert(new_keys.contains(k));
            }
        }
        assert(new_keys.to_set() =~= old_keys.to_set().insert(key@));
    }
    keys
}

/// Adds the keys of one day's classes to `keys`; the key of the day's last
/// assembly, if it has one, takes the place of `assembly`.
pub fn collect_day_keys(day: &Day, keys: KeySet, assembly: Option<String>) -> (found: (
    KeySet,
    Option<String>,
))
    ensures
        found.0@.to_set() == keys@.to_set().union(key_set(day@)),
        text_option_view(found.1) == match last_assembly(day@) {
            Some(key) => Some(key),
            None => text_option_view(assembly),
        },
{
    let ghost old_set = keys@.to_set();
    let ghost old_assembly = text_option_view(assembly);
    let mut keys = keys;
    let mut assembly = assembly;
    let mut i: usize = 0;
    proof {
        assert(key_set(day@.take(0)) =~= Set::empty());
        assert(old_set.union(key_set(day@.take(0))) =~= old_set);
    }
    while i < day.lessons.len()
        invariant
            i <= day.lessons.len(),
            keys@.to_set() == old_set.union(key_set(day@.take(i as int))),
            text_option_view(assembly) == match last_assembly(day@.take(i as int)) {
                Some(key) => Some(key),
                None => old_assembly,
            },
        decreases day.lessons.len() - i,
    {
        proof {
            let seen = day@.take(i as int);
            let more = day@.take(i + 1);
            assert(more =~= seen.push(day@[i as int]));
            assert(more.drop_last() =~= seen);
            lemma_key_set_push(seen, day@[i as int]);
        }
        match &day.lessons[i] {
            Lesson::Present { subject, subject_code, class_code, .. } => {
                let key = class_key_text(subject_code.as_str(), class_code.as_str());
                if same_text(subject.name.as_str(), ASSEMBLY) {
                    assembly = Some(key);
                } else {
                    keys = keys.insert(key);
                    proof {
                        let seen = key_set(day@.take(i as int));
                        let key = lesson_key(day@[i as int]);
                        assert(old_set.union(seen).insert(key) =~= old_set.union(seen.insert(key)));
                    }
                }
            },
            _ => {},
        }
        i += 1;
    }
    proof {
        assert(day@.take(day@.len() as int) =~= day@);
    }
    (keys, assembly)
}

/// Adds the keys of one week's classes to `keys`, day by day from Monday to
/// Friday.
pub fn collect_week_keys(week: &Week, keys: KeySet, assembly: Option<String>) -> (found: (
    KeySet,
    Option<String>,
))
    ensures
        found.0@.to_set() == keys@.to_set().union(key_set(week@.lessons())),
        text_option_view(found.1) == match last_assembly(week@.lessons()) {
            Some(key) => Some(key),
            None => text_option_view(assembly),
        },
{
    let ghost old_set = keys@.to_set();
    let (keys, assembly) = collect_day_keys(&week.monday, keys, assembly);
    let (keys, assembly) = collect_day_keys(&week.tuesday, keys, assembly);
    let (keys, assembly) = collect_day_keys(&week.wednesday, keys, assembly);
    let (keys, assembly) = collect_day_keys(&week.thursday, keys, assembly);
    let (keys, assembly) = collect_day_keys(&week.friday, keys, assembly);
    proof {
        let w = week@;
        let two = w.monday + w.tuesday;
        let three = two + w.wednesday;
        let four = three + w.thursday;
        lemma_key_set_concat(w.monday, w.tuesday);
        lemma_key_set_concat(two, w.wednesday);
        lemma_key_set_concat(three, w.thursday);
        lemma_key_set_concat(four, w.friday);
        lemma_last_assembly_concat(w.monday, w.tuesday);
        lemma_last_assembly_concat(two, w.wednesday);
        lemma_last_assembly_concat(three, w.thursday);
        lemma_last_assembly_concat(four, w.friday);
        assert(keys@.to_set() =~= old_set.union(key_set(w.lessons())));
    }
    (keys, assembly)
}

/// The keys that the colour settings of a timetable are made of.
#[derive(Debug, PartialEq)]
pub struct SubjectKeys {
    /// The keys of the classes that get a colour of their own, each once, in
    /// the order of texts.
    pub keys: Vec<String>,
    /// The key of the assembly, which shares the colour of the breaks.
    pub assembly: Option<String>,
}

pub struct SubjectKeysView {
    pub keys: Seq<Seq<char>>,
    pub assembly: Option<Seq<char>>,
}

impl View for SubjectKeys {
    type V = SubjectKeysView;

    open spec fn view(&self) -> SubjectKeysView {
        SubjectKeysView { keys: texts(self.keys@), assembly: text_option_view(self.assembly) }
    }
}

/// The keys of a timetable's classes, gathered over both weeks.
pub fn subject_keys(t: &Timetable) -> (found: SubjectKeys)
    ensures
        is_sorted_form(found@.keys, key_set(t@.lessons())),
        found@.keys == sorted_keys(key_set(t@.lessons())),
        found@.keys.len() == key_set(t@.lessons()).len(),
        found@.assembly == last_assembly(t@.lessons()),
{
    let (keys, assembly) = collect_week_keys(&t.week_a, KeySet::new(), None);
    let (keys, assembly) = collect_week_keys(&t.week_b, keys, assembly);
    let found = SubjectKeys { keys: keys.into_keys(), assembly };
    proof {
        let a = t@.week_a.lessons();
        let b = t@.week_b.lessons();
        lemma_key_set_concat(a, b);
        lemma_last_assembly_concat(a, b);
        assert(Seq::<Seq<char>>::empty().to_set() =~= Set::empty());
        assert(found@.keys.to_set() =~= key_set(t@.lessons()));
        assert(is_sorted_form(found@.keys, key_set(t@.lessons())));
        lemma_sorted_form_count(found@.keys);
        lemma_sorted_form_unique(found@.keys, sorted_keys(key_set(t@.lessons())));
    }
    found
}

/// The hues of `count` classes, in the order of their keys: they start at 0
/// and lie `hue_step(count)` degrees apart.
pub fn subject_hues(count: usize) -> (hues: Vec<usize>)
    ensures
        hues@.len() == count,
        forall|i: int| 0 <= i < count ==> #[trigger] hues@[i] == hue_at(count as nat, i as nat),
        forall|i: int| 0 <= i < count ==> #[trigger] hues@[i] < 360,
{
    let step: usize = if count >= 360 {
        0
    } else {
        360 / (count + 1)
    };
    proof {
        lemma_hue_step(count as nat);
    }
    let mut hues: Vec<usize> = Vec::new();
    let mut hue: usize = 0;
    let mut i: usize = 0;
    while i < count
        invariant
            i <= count,
            step == hue_step(count as nat),
            hue == hue_at(count as nat, i as nat),
            hues@.len() == i,
            forall|k: int| 0 <= k < i ==> #[trigger] hues@[k] == hue_at(count as nat, k as nat),
            forall|k: int| 0 <= k < i ==> #[trigger] hues@[k] < 360,
        decreases count - i,
    {
        proof {
            lemma_hue_in_wheel(count as nat, i as nat);
            lemma_hue_in_wheel(count as nat, (i + 1) as nat);
            assert(hue_at(count as nat, (i + 1) as nat) == hue_at(count as nat, i as nat)
                + hue_step(count as nat)) by (nonlinear_arith)
                requires
                    hue_at(count as nat, (i + 1) as nat) == (i + 1) * hue_step(count as nat),
                    hue_at(count as nat, i as nat) == i * hue_step(count as nat),
            ;
        }
        hues.push(hue);
        hue += step;
        i += 1;
    }
    hues
}

/// From 360 classes on, the hues all fall on 0.
pub proof fn lemma_hue_step(count: nat)
    ensures
        count >= 360 ==> hue_step(count) == 0,
        hue_step(count) <= 360,
{
    if count >= 360 {
        assert(360nat / ((count + 1) as nat) == 0) by (nonlinear_arith)
            requires
                count >= 360,
        ;
    } else {
        assert(360nat / ((count + 1) as nat) <= 360) by (nonlinear_arith);
    }
}

/// No hue goes round the colour wheel: the hue of each of `count` classes is
/// less than 360, and what would be the hue of one class more is at most
/// 360.
pub proof fn lemma_hue_in_wheel(count: nat, i: nat)
    ensures
        i < count ==> hue_at(count, i) < 360,
        i <= count ==> hue_at(count, i) <= 360,
{
    let step = hue_step(count);
    let n = (count + 1) as nat;
    assert(step * n <= 360) by (nonlinear_arith)
        requires
            step == 360nat / n,
            n > 0,
    ;
    if i <= count {
        assert(i * step <= step * n) by (nonlinear_arith)
            requires
                i < n,
        ;
        if i < count {
            assert(i * step + step <= step * n) by (nonlinear_arith)
                requires
                    i + 1 < n,
            ;
            assert(step == 0 ==> i * step == 0) by (nonlinear_arith);
        }
    }
}

} // verus!
