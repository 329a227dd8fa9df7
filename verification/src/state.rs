//! Saved state between runs: event templates and the undo history, with the rules that
//! keep them consistent. Reading and writing the files is left to the caller; these functions
//! decide what the contents become.
use vstd::prelude::*;
use crate::error::{invalid_argument, invalid_argument_str, AppError, ErrorKind};
use crate::store::{EventDraft, RecurrenceRuleInfo, RecurrenceScope};
use crate::text::{chars_of, push_str, str_eq, string_from_chars};
use crate::time::Moment;

verus! {

/// How many undo records are kept.
pub const MAX_UNDO_STACK: usize = 20;

/// A template: a named event draft and when it was saved.
#[derive(Clone, Debug)]
pub struct StoredTemplate {
    pub name: String,
    pub draft: EventDraft,
    pub saved_at: Moment,
}

/// One undoable change and when it was made.
#[derive(Clone, Debug)]
pub struct UndoRecord {
    pub action: UndoAction,
    pub recorded_at: Moment,
}

/// What undoing a change does.
#[derive(Clone, Debug)]
pub enum UndoAction {
    DeleteCreated { event_id: String, selected_start: Moment, scope: Option<RecurrenceScope> },
    RestoreDeleted { draft: EventDraft },
    ReplaceWithDraft {
        current_event_id: String,
        current_start: Moment,
        current_scope: Option<RecurrenceScope>,
        draft: EventDraft,
    },
    Unavailable { reason: String },
}

// ---------------------------------------------------------------------------------------------
// Templates
// ---------------------------------------------------------------------------------------------

/// Strict lexicographic order of texts by character (the order of `str` comparison).
pub open spec fn text_lt(a: Seq<char>, b: Seq<char>) -> bool
    decreases a.len(),
{
    if a.len() == 0 {
        b.len() > 0
    } else if b.len() == 0 {
        false
    } else if a[0] != b[0] {
        (a[0] as u32) < (b[0] as u32)
    } else {
        text_lt(a.drop_first(), b.drop_first())
    }
}

/// Whether `a` sorts before `b`.
pub fn name_less(a: &str, b: &str) -> (r: bool)
    ensures
        r == text_lt(a@, b@),
{
    let av = chars_of(a);
    let bv = chars_of(b);
    let mut i: usize = 0;
    proof {
        assert(a@.skip(0) =~= a@);
        assert(b@.skip(0) =~= b@);
    }
    while i < av.len() && i < bv.len()
        invariant
            i <= av@.len(),
            i <= bv@.len(),
            av@ == a@,
            bv@ == b@,
            text_lt(a@, b@) == text_lt(a@.skip(i as int), b@.skip(i as int)),
        decreases av@.len() - i,
    {
        proof {
            assert(a@.skip(i as int).drop_first() =~= a@.skip(i as int + 1));
            assert(b@.skip(i as int).drop_first() =~= b@.skip(i as int + 1));
        }
        if av[i] != bv[i] {
            return (av[i] as u32) < (bv[i] as u32);
        }
        i += 1;
    }
    i < bv.len()
}

/// Inserts a template after every template whose name does not sort after its own.
pub open spec fn insert_by_name(s: Seq<StoredTemplate>, x: StoredTemplate) -> Seq<StoredTemplate>
    decreases s.len(),
{
    if s.len() == 0 {
        seq![x]
    } else if !text_lt(x.name@, s.last().name@) {
        s.push(x)
    } else {
        insert_by_name(s.drop_last(), x).push(s.last())
    }
}

/// Templates ordered by name; templates with the same name keep their order.
pub open spec fn sort_by_name(s: Seq<StoredTemplate>) -> Seq<StoredTemplate>
    decreases s.len(),
{
    if s.len() == 0 {
        s
    } else {
        insert_by_name(sort_by_name(s.drop_last()), s.last())
    }
}

fn insert_template(v: Vec<StoredTemplate>, x: StoredTemplate) -> (r: Vec<StoredTemplate>)
    ensures
        r@ == insert_by_name(v@, x),
    decreases v@.len(),
{
    let mut v = v;
    match v.pop() {
        None => {
            let mut r: Vec<StoredTemplate> = Vec::new();
            r.push(x);
            r
        },
        Some(last) => {
            if !name_less(x.name.as_str(), last.name.as_str()) {
                v.push(last);
                v.push(x);
                v
            } else {
                let mut r = insert_template(v, x);
                r.push(last);
                r
            }
        },
    }
}

/// The templates ordered by name.
pub fn list_templates(templates: Vec<StoredTemplate>) -> (r: Vec<StoredTemplate>)
    ensures
        r@ == sort_by_name(templates@),
{
    let ghost orig = templates@;
    let mut out: Vec<StoredTemplate> = Vec::new();
    for t in it: templates.into_iter()
        invariant
            it.seq() == orig,
            out@ == sort_by_name(orig.take(it.index() as int)),
    {
        proof {
            assert(orig.take(it.index() as int + 1).drop_last() =~= orig.take(it.index() as int));
        }
        out = insert_template(out, t);
    }
    proof {
        assert(orig.take(orig.len() as int) =~= orig);
    }
    out
}

/// The index of the first template with the given name.
pub open spec fn first_named(s: Seq<StoredTemplate>, name: Seq<char>) -> Option<int>
    decreases s.len(),
{
    if s.len() == 0 {
        None
    } else if s[0].name@ == name {
        Some(0)
    } else {
        match first_named(s.drop_first(), name) {
            Some(i) => Some(i + 1),
            None => None,
        }
    }
}

proof fn lemma_first_named(s: Seq<StoredTemplate>, name: Seq<char>)
    ensures
        match first_named(s, name) {
            Some(i) => 0 <= i < s.len() && s[i].name@ == name && forall|j: int|
                0 <= j < i ==> #[trigger] s[j].name@ != name,
            None => forall|j: int| 0 <= j < s.len() ==> #[trigger] s[j].name@ != name,
        },
    decreases s.len(),
{
    if s.len() > 0 {
        lemma_first_named(s.drop_first(), name);
        if s[0].name@ != name {
            assert forall|j: int| 1 <= j < s.len() implies s[j] == s.drop_first()[j - 1] by {}
        }
    }
}

fn find_named(s: &Vec<StoredTemplate>, name: &str) -> (r: Option<usize>)
    ensures
        match r {
            Some(i) => first_named(s@, name@) == Some(i as int) && i < s@.len(),
            None => first_named(s@, name@) is None,
        },
{
    proof {
        lemma_first_named(s@, name@);
    }
    let mut i: usize = 0;
    while i < s.len()
        invariant
            i <= s@.len(),
            forall|j: int| 0 <= j < i ==> #[trigger] s@[j].name@ != name@,
            match first_named(s@, name@) {
                Some(k) => 0 <= k < s@.len() && s@[k].name@ == name@ && forall|j: int|
                    0 <= j < k ==> #[trigger] s@[j].name@ != name@,
                None => forall|j: int| 0 <= j < s@.len() ==> #[trigger] s@[j].name@ != name@,
            },
        decreases s@.len() - i,
    {
        if str_eq(s[i].name.as_str(), name) {
            proof {
                let k = first_named(s@, name@)->0;
                assert(k == i as int);
            }
            return Some(i);
        }
        i += 1;
    }
    None
}

/// The template with the given name (the first in name order), or an error naming it.
pub fn get_template(templates: Vec<StoredTemplate>, name: &str) -> (r: Result<
    StoredTemplate,
    AppError,
>)
    ensures
        match first_named(sort_by_name(templates@), name@) {
            Some(i) => r matches Ok(t) && t == sort_by_name(templates@)[i],
            None => r matches Err(e) && e.is((ErrorKind::TemplateNotFound, name@)),
        },
{
    let mut sorted = list_templates(templates);
    match find_named(&sorted, name) {
        Some(i) => Ok(sorted.remove(i)),
        None => Err(AppError::TemplateNotFound(string_from_chars(&chars_of(name)))),
    }
}

/// The message that refuses to overwrite a template without `--force`.
pub open spec fn exists_message(name: Seq<char>) -> Seq<char> {
    "Template '"@ + name + "' already exists. Use --force to overwrite."@
}

/// Saves a draft under a name: a new name is added at the end; an existing name is replaced
/// in place when overwriting is allowed, and refused otherwise.
pub fn save_template(
    templates: &mut Vec<StoredTemplate>,
    name: &str,
    draft: EventDraft,
    overwrite: bool,
    saved_at: Moment,
) -> (r: Result<(), AppError>)
    ensures
        match first_named(old(templates)@, name@) {
            Some(i) => if overwrite {
                r is Ok && saved(old(templates)@, final(templates)@, name@, draft, saved_at)
            } else {
                &&& r matches Err(e) && e.is((ErrorKind::InvalidArgument, exists_message(name@)))
                &&& final(templates)@ == old(templates)@
            },
            None => r is Ok && saved(old(templates)@, final(templates)@, name@, draft, saved_at),
        },
{
    let stored = StoredTemplate { name: string_from_chars(&chars_of(name)), draft, saved_at };
    match find_named(templates, name) {
        Some(i) => {
            if !overwrite {
                let mut m = chars_of("Template '");
                push_str(&mut m, name);
                push_str(&mut m, "' already exists. Use --force to overwrite.");
                return Err(invalid_argument(m));
            }
            templates.set(i, stored);
            proof {
                assert(templates@ == old(templates)@.update(i as int, stored));
            }
            Ok(())
        },
        None => {
            templates.push(stored);
            proof {
                assert(templates@.drop_last() =~= old(templates)@);
            }
            Ok(())
        },
    }
}

/// Removes every template with the given name; an error when there was none.
pub fn delete_template(templates: &mut Vec<StoredTemplate>, name: &str) -> (r: Result<(), AppError>)
    ensures
        final(templates)@ == old(templates)@.filter(|t: StoredTemplate| t.name@ != name@),
        first_named(old(templates)@, name@) is None ==> (r matches Err(e) && e.is(
            (ErrorKind::TemplateNotFound, name@),
        )),
        first_named(old(templates)@, name@) is Some ==> r is Ok,
{
    proof {
        lemma_first_named(old(templates)@, name@);
    }
    let ghost orig = templates@;
    let ghost pred = |t: StoredTemplate| t.name@ != name@;
    let mut kept: Vec<StoredTemplate> = Vec::new();
    let mut removed = false;
    let mut rest: Vec<StoredTemplate> = Vec::new();
    std::mem::swap(&mut rest, templates);
    for t in it: rest.into_iter()
        invariant
            it.seq() == orig,
            pred == (|t: StoredTemplate| t.name@ != name@),
            kept@ == orig.take(it.index() as int).filter(pred),
            removed == exists|j: int| 0 <= j < it.index() && #[trigger] orig[j].name@ == name@,
    {
        proof {
            assert(orig.take(it.index() as int + 1) =~= orig.take(it.index() as int).push(t));
            orig.take(it.index() as int).lemma_filter_push(t, pred);
        }
        if str_eq(t.name.as_str(), name) {
            removed = true;
        } else {
            kept.push(t);
        }
    }
    proof {
        assert(orig.take(orig.len() as int) =~= orig);
    }
    *templates = kept;
    if !removed {
        return Err(AppError::TemplateNotFound(string_from_chars(&chars_of(name))));
    }
    Ok(())
}

/// The first template with the given name, if any.
pub open spec fn named(s: Seq<StoredTemplate>, name: Seq<char>) -> Option<StoredTemplate> {
    match first_named(s, name) {
        Some(i) => Some(s[i]),
        None => None,
    }
}

pub(crate) proof fn lemma_text_lt_irreflexive(a: Seq<char>)
    ensures
        !text_lt(a, a),
    decreases a.len(),
{
    if a.len() > 0 {
        lemma_text_lt_irreflexive(a.drop_first());
    }
}

pub(crate) proof fn lemma_text_lt_transitive(a: Seq<char>, b: Seq<char>, c: Seq<char>)
    requires
        text_lt(a, b),
        text_lt(b, c),
    ensures
        text_lt(a, c),
    decreases a.len(),
{
    if a.len() > 0 && b.len() > 0 && c.len() > 0 && a[0] == b[0] && b[0] == c[0] {
        lemma_text_lt_transitive(a.drop_first(), b.drop_first(), c.drop_first());
    }
}

pub(crate) proof fn lemma_text_lt_total(a: Seq<char>, b: Seq<char>)
    requires
        a != b,
    ensures
        text_lt(a, b) || text_lt(b, a),
    decreases a.len(),
{
    if a.len() > 0 && b.len() > 0 && a[0] == b[0] {
        if a.drop_first() == b.drop_first() {
            assert(a =~= seq![a[0]] + a.drop_first());
            assert(b =~= seq![b[0]] + b.drop_first());
        }
        lemma_text_lt_total(a.drop_first(), b.drop_first());
    } else if a.len() > 0 && b.len() > 0 {
        let (x, y) = (a[0], b[0]);
        vstd::utf8::char_u32_cast(x, x as u32);
        vstd::utf8::char_u32_cast(y, y as u32);
        assert((x as u32) != (y as u32));
    } else if a.len() == 0 && b.len() == 0 {
        assert(a =~= b);
    }
}

proof fn lemma_named_drop(s: Seq<StoredTemplate>, name: Seq<char>)
    requires
        s.len() > 0,
        s[0].name@ != name,
    ensures
        named(s, name) == named(s.drop_first(), name),
{
    lemma_first_named(s.drop_first(), name);
    match first_named(s.drop_first(), name) {
        Some(i) => {
            assert(s.drop_first()[i] == s[i + 1]);
        },
        None => {},
    }
}

proof fn lemma_named_append(a: Seq<StoredTemplate>, b: Seq<StoredTemplate>, name: Seq<char>)
    ensures
        named(a + b, name) == (if named(a, name) is Some {
            named(a, name)
        } else {
            named(b, name)
        }),
    decreases a.len(),
{
    if a.len() == 0 {
        assert(a + b =~= b);
    } else {
        let ab = a + b;
        assert(ab.drop_first() =~= a.drop_first() + b);
        assert(ab[0] == a[0]);
        lemma_named_append(a.drop_first(), b, name);
        if a[0].name@ != name {
            lemma_named_drop(a, name);
            lemma_named_drop(ab, name);
        }
    }
}

proof fn lemma_named_single(x: StoredTemplate, name: Seq<char>)
    ensures
        named(seq![x], name) == (if x.name@ == name {
            Some(x)
        } else {
            None::<StoredTemplate>
        }),
{
    let s = seq![x];
    assert(s[0] == x);
    if x.name@ != name {
        assert(s.drop_first() =~= Seq::<StoredTemplate>::empty());
        lemma_named_drop(s, name);
        assert(first_named(Seq::<StoredTemplate>::empty(), name) is None);
    }
}

proof fn lemma_insert_shape(s: Seq<StoredTemplate>, x: StoredTemplate) -> (j: int)
    ensures
        0 <= j <= s.len(),
        insert_by_name(s, x) == s.take(j) + seq![x] + s.skip(j),
        forall|m: int| j <= m < s.len() ==> text_lt(x.name@, #[trigger] s[m].name@),
    decreases s.len(),
{
    if s.len() == 0 {
        assert(s.take(0) + seq![x] + s.skip(0) =~= seq![x]);
        0
    } else if !text_lt(x.name@, s.last().name@) {
        assert(s.take(s.len() as int) + seq![x] + s.skip(s.len() as int) =~= s.push(x));
        s.len() as int
    } else {
        let p = s.drop_last();
        let j = lemma_insert_shape(p, x);
        assert(p.take(j) + seq![x] + p.skip(j) + seq![s.last()] =~= s.take(j) + seq![x] + s.skip(j));
        assert forall|m: int| j <= m < s.len() implies text_lt(x.name@, #[trigger] s[m].name@) by {
            if m < p.len() {
                assert(s[m] == p[m]);
            }
        }
        j
    }
}

proof fn lemma_named_after_insert(s: Seq<StoredTemplate>, x: StoredTemplate, name: Seq<char>)
    ensures
        named(insert_by_name(s, x), name) == (if named(s, name) is Some {
            named(s, name)
        } else if x.name@ == name {
            Some(x)
        } else {
            None::<StoredTemplate>
        }),
{
    let j = lemma_insert_shape(s, x);
    let a = s.take(j);
    let b = s.skip(j);
    assert(s == a + b);
    lemma_named_append(a, b, name);
    lemma_named_append(a + seq![x], b, name);
    lemma_named_append(a, seq![x], name);
    lemma_named_single(x, name);
    if x.name@ == name && named(a, name) is None {
        // No template in the tail has the inserted name: their names sort after it.
        lemma_text_lt_irreflexive(name);
        lemma_first_named(b, name);
        match first_named(b, name) {
            Some(i) => {
                assert(b[i] == s[j + i]);
                assert(text_lt(x.name@, s[j + i].name@));
            },
            None => {},
        }
    }
}

/// The template a name finds (the first of that name in name order), without reordering.
pub fn find_template<'a>(templates: &'a Vec<StoredTemplate>, name: &str) -> (r: Option<&'a StoredTemplate>)
    ensures
        match r {
            Some(t) => named(sort_by_name(templates@), name@) == Some(*t),
            None => named(sort_by_name(templates@), name@) is None,
        },
{
    proof {
        lemma_sort_keeps_first_named(templates@, name@);
    }
    match find_named(templates, name) {
        Some(i) => Some(&templates[i]),
        None => None,
    }
}

/// Templates in name order: no name sorts before the name of a template listed ahead of it.
pub open spec fn in_name_order(s: Seq<StoredTemplate>) -> bool {
    forall|i: int, j: int| 0 <= i < j < s.len() ==> !text_lt(#[trigger] s[j].name@, #[trigger] s[i].name@)
}

proof fn lemma_name_negtrans(a: Seq<char>, b: Seq<char>, c: Seq<char>)
    requires
        text_lt(a, c),
    ensures
        text_lt(a, b) || text_lt(b, c),
{
    if !text_lt(a, b) && !text_lt(b, c) {
        if a != b {
            lemma_text_lt_total(a, b);
            lemma_text_lt_transitive(b, a, c);
        }
        if b != c {
            lemma_text_lt_total(b, c);
        }
        lemma_text_lt_irreflexive(a);
        if b != c && a == b {
            lemma_text_lt_transitive(a, c, b);
        }
    }
}

proof fn lemma_insert_by_name(s: Seq<StoredTemplate>, x: StoredTemplate)
    ensures
        insert_by_name(s, x).to_multiset() =~= s.to_multiset().insert(x),
        in_name_order(s) ==> in_name_order(insert_by_name(s, x)),
    decreases s.len(),
{
    broadcast use vstd::seq_lib::group_to_multiset_ensures;
    if s.len() == 0 {
        assert(seq![x] =~= Seq::<StoredTemplate>::empty().push(x));
    } else if !text_lt(x.name@, s.last().name@) {
        if in_name_order(s) {
            let r = s.push(x);
            assert forall|i: int, j: int| 0 <= i < j < r.len() implies !text_lt(#[trigger] r[j].name@, #[trigger] r[i].name@) by {
                if j == s.len() {
                    if text_lt(x.name@, s[i].name@) {
                        lemma_name_negtrans(x.name@, s.last().name@, s[i].name@);
                        if i < s.len() - 1 {
                            assert(!text_lt(s[s.len() - 1].name@, s[i].name@));
                        } else {
                            lemma_text_lt_irreflexive(s[i].name@);
                        }
                    }
                } else {
                    assert(r[i] == s[i] && r[j] == s[j]);
                }
            }
        }
    } else {
        let rest = s.drop_last();
        lemma_insert_by_name(rest, x);
        assert(s =~= rest.push(s.last()));
        let r0 = insert_by_name(rest, x);
        if in_name_order(s) {
            assert(in_name_order(rest)) by {
                assert forall|i: int, j: int| 0 <= i < j < rest.len() implies !text_lt(
                    #[trigger] rest[j].name@,
                    #[trigger] rest[i].name@,
                ) by {
                    assert(rest[i] == s[i] && rest[j] == s[j]);
                }
            }
            let r = r0.push(s.last());
            assert forall|i: int, j: int| 0 <= i < j < r.len() implies !text_lt(#[trigger] r[j].name@, #[trigger] r[i].name@) by {
                if j == r0.len() {
                    let y = r0[i];
                    assert(r0.to_multiset().count(y) > 0);
                    if y == x {
                        if text_lt(s.last().name@, x.name@) {
                            lemma_text_lt_transitive(x.name@, s.last().name@, x.name@);
                            lemma_text_lt_irreflexive(x.name@);
                        }
                    } else {
                        assert(rest.to_multiset().count(y) > 0);
                        assert(rest.contains(y));
                        let k = choose|k: int| 0 <= k < rest.len() && rest[k] == y;
                        assert(s[k] == y);
                        assert(!text_lt(s[s.len() - 1].name@, s[k].name@));
                    }
                } else {
                    assert(r[i] == r0[i] && r[j] == r0[j]);
                }
            }
        }
    }
}

/// Listing templates keeps every template, each as often, in name order.
pub proof fn law_templates_in_name_order(s: Seq<StoredTemplate>)
    ensures
        sort_by_name(s).to_multiset() =~= s.to_multiset(),
        in_name_order(sort_by_name(s)),
    decreases s.len(),
{
    broadcast use vstd::seq_lib::group_to_multiset_ensures;
    if s.len() > 0 {
        law_templates_in_name_order(s.drop_last());
        lemma_insert_by_name(sort_by_name(s.drop_last()), s.last());
        assert(s =~= s.drop_last().push(s.last()));
    }
}

/// Sorting by name keeps, for every name, the same first template with that name.
pub proof fn lemma_sort_keeps_first_named(s: Seq<StoredTemplate>, name: Seq<char>)
    ensures
        named(sort_by_name(s), name) == named(s, name),
    decreases s.len(),
{
    if s.len() > 0 {
        let p = s.drop_last();
        lemma_sort_keeps_first_named(p, name);
        lemma_named_after_insert(sort_by_name(p), s.last(), name);
        assert(s == p + seq![s.last()]);
        lemma_named_append(p, seq![s.last()], name);
        lemma_named_single(s.last(), name);
    }
}

/// A successful save of `draft` under `name` at `saved_at` turned `before` into `after`: the
/// first template of that name was replaced in place, or, when there was none, one was added.
pub open spec fn saved(
    before: Seq<StoredTemplate>,
    after: Seq<StoredTemplate>,
    name: Seq<char>,
    draft: EventDraft,
    saved_at: Moment,
) -> bool {
    match first_named(before, name) {
        Some(i) => {
            &&& after.len() == before.len()
            &&& after[i].name@ == name
            &&& after[i].draft == draft
            &&& after[i].saved_at == saved_at
            &&& forall|j: int| 0 <= j < before.len() && j != i ==> #[trigger] after[j] == before[j]
        },
        None => {
            &&& after.len() == before.len() + 1
            &&& after.drop_last() == before
            &&& after.last().name@ == name
            &&& after.last().draft == draft
            &&& after.last().saved_at == saved_at
        },
    }
}

/// Reading a template back after saving it gives what was saved: after a successful save,
/// looking the name up in the name-ordered list finds the saved draft and time.
pub proof fn law_get_after_save(
    before: Seq<StoredTemplate>,
    after: Seq<StoredTemplate>,
    name: Seq<char>,
    draft: EventDraft,
    saved_at: Moment,
)
    requires
        saved(before, after, name, draft, saved_at),
    ensures
        first_named(sort_by_name(after), name) is Some,
        sort_by_name(after)[first_named(sort_by_name(after), name)->0].draft == draft,
        sort_by_name(after)[first_named(sort_by_name(after), name)->0].saved_at == saved_at,
{
    lemma_first_named(before, name);
    lemma_first_named(after, name);
    lemma_sort_keeps_first_named(after, name);
    lemma_first_named(sort_by_name(after), name);
    match first_named(before, name) {
        Some(i) => {
            assert forall|j: int| 0 <= j < i implies #[trigger] after[j].name@ != name by {
                assert(after[j] == before[j]);
            }
            match first_named(after, name) {
                Some(k) => {
                    assert(k == i);
                },
                None => {
                    assert(after[i].name@ == name);
                },
            }
        },
        None => {
            let n = before.len() as int;
            assert forall|j: int| 0 <= j < n implies #[trigger] after[j].name@ != name by {
                assert(after[j] == after.drop_last()[j]);
            }
            match first_named(after, name) {
                Some(k) => {
                    assert(k == n);
                },
                None => {
                    assert(after[n].name@ == name);
                },
            }
        },
    }
}

/// After deleting a name, no template of that name is found.
pub proof fn law_get_after_delete(before: Seq<StoredTemplate>, name: Seq<char>)
    ensures
        first_named(sort_by_name(before.filter(|t: StoredTemplate| t.name@ != name)), name) is None,
{
    let after = before.filter(|t: StoredTemplate| t.name@ != name);
    before.filter_lemma(|t: StoredTemplate| t.name@ != name);
    lemma_first_named(after, name);
    lemma_sort_keeps_first_named(after, name);
    match first_named(after, name) {
        Some(k) => {
            assert(after[k].name@ != name);
        },
        None => {},
    }
}

// ---------------------------------------------------------------------------------------------
// Undo history
// ---------------------------------------------------------------------------------------------

/// The last `n` entries of a history (all of it when it is shorter).
pub open spec fn keep_last<T>(s: Seq<T>, n: nat) -> Seq<T> {
    if s.len() > n {
        s.skip(s.len() - n)
    } else {
        s
    }
}

/// The message that blocks a change while an undo is in progress.
pub open spec fn pending_block_message() -> Seq<char> {
    "Undo is already in progress. Finish it with `calx undo` before making another change."@
}

/// Drops the oldest records beyond the last twenty.
pub fn trim_undo_stack(stack: &mut Vec<UndoRecord>)
    ensures
        final(stack)@ == keep_last(old(stack)@, MAX_UNDO_STACK as nat),
{
    let ghost orig = stack@;
    while stack.len() > MAX_UNDO_STACK
        invariant
            orig.len() >= stack@.len(),
            stack@ == orig.skip(orig.len() - stack@.len()),
            stack@.len() >= MAX_UNDO_STACK || stack@ == orig,
        decreases stack@.len(),
    {
        stack.remove(0);
        proof {
            assert(stack@ =~= orig.skip(orig.len() - stack@.len()));
        }
    }
    proof {
        if orig.len() <= MAX_UNDO_STACK {
            assert(stack@ =~= orig);
        }
    }
}

/// Recording a change and then reading the most recent record gives that change, and the
/// history never holds more than twenty records.
pub proof fn law_latest_after_record(stack: Seq<UndoRecord>, record: UndoRecord)
    ensures
        keep_last(stack.push(record), MAX_UNDO_STACK as nat).len() > 0,
        keep_last(stack.push(record), MAX_UNDO_STACK as nat).last() == record,
        keep_last(stack.push(record), MAX_UNDO_STACK as nat).len() <= MAX_UNDO_STACK,
{
    let s = stack.push(record);
    if s.len() > MAX_UNDO_STACK {
        let k = s.skip(s.len() - MAX_UNDO_STACK);
        assert(k.last() == s.last());
    }
}

/// Taking the most recent record and putting it back leaves the history as it was.
pub proof fn law_restore_after_take(stack: Seq<UndoRecord>)
    requires
        0 < stack.len() <= MAX_UNDO_STACK,
    ensures
        keep_last(stack.drop_last().push(stack.last()), MAX_UNDO_STACK as nat) == stack,
{
    assert(stack.drop_last().push(stack.last()) =~= stack);
}

/// Two optional texts that read the same.
pub open spec fn same_opt_text(a: Option<String>, b: Option<String>) -> bool {
    match (a, b) {
        (Some(x), Some(y)) => x@ == y@,
        (None, None) => true,
        _ => false,
    }
}

/// Two recurrence rules that say the same.
pub open spec fn same_rule(a: Option<RecurrenceRuleInfo>, b: Option<RecurrenceRuleInfo>) -> bool {
    match (a, b) {
        (Some(x), Some(y)) => x.frequency@ == y.frequency@ && x.interval == y.interval && x.count
            == y.count && x.until == y.until,
        (None, None) => true,
        _ => false,
    }
}

/// Two drafts with the same fields; instants compare as instants, whatever their offsets.
pub open spec fn same_draft(a: EventDraft, b: EventDraft) -> bool {
    &&& a.title@ == b.title@
    &&& a.start.timestamp == b.start.timestamp
    &&& a.end.timestamp == b.end.timestamp
    &&& a.calendar@ == b.calendar@
    &&& a.calendar_id@ == b.calendar_id@
    &&& same_opt_text(a.location, b.location)
    &&& same_opt_text(a.url, b.url)
    &&& same_opt_text(a.notes, b.notes)
    &&& a.all_day == b.all_day
    &&& a.alerts@ == b.alerts@
    &&& same_rule(a.recurrence_rule, b.recurrence_rule)
}

/// Two undo actions that undo the same change.
pub open spec fn same_action(a: UndoAction, b: UndoAction) -> bool {
    match (a, b) {
        (
            UndoAction::DeleteCreated { event_id: i1, selected_start: s1, scope: c1 },
            UndoAction::DeleteCreated { event_id: i2, selected_start: s2, scope: c2 },
        ) => i1@ == i2@ && s1.timestamp == s2.timestamp && c1 == c2,
        (UndoAction::RestoreDeleted { draft: d1 }, UndoAction::RestoreDeleted { draft: d2 }) =>
            same_draft(d1, d2),
        (
            UndoAction::ReplaceWithDraft {
                current_event_id: i1,
                current_start: s1,
                current_scope: c1,
                draft: d1,
            },
            UndoAction::ReplaceWithDraft {
                current_event_id: i2,
                current_start: s2,
                current_scope: c2,
                draft: d2,
            },
        ) => i1@ == i2@ && s1.timestamp == s2.timestamp && c1 == c2 && same_draft(d1, d2),
        (UndoAction::Unavailable { reason: r1 }, UndoAction::Unavailable { reason: r2 }) => r1@
            == r2@,
        _ => false,
    }
}

/// Two undo records of the same change made at the same instant.
pub open spec fn same_record(a: UndoRecord, b: UndoRecord) -> bool {
    same_action(a.action, b.action) && a.recorded_at.timestamp == b.recorded_at.timestamp
}

fn opt_text_eq(a: &Option<String>, b: &Option<String>) -> (r: bool)
    ensures
        r == same_opt_text(*a, *b),
{
    match (a, b) {
        (Some(x), Some(y)) => str_eq(x.as_str(), y.as_str()),
        (None, None) => true,
        _ => false,
    }
}

fn alerts_eq(a: &Vec<i64>, b: &Vec<i64>) -> (r: bool)
    ensures
        r == (a@ == b@),
{
    if a.len() != b.len() {
        return false;
    }
    let mut i: usize = 0;
    while i < a.len()
        invariant
            a.len() == b.len(),
            i <= a.len(),
            forall|j: int| 0 <= j < i ==> a@[j] == b@[j],
        decreases a.len() - i,
    {
        if a[i] != b[i] {
            return false;
        }
        i += 1;
    }
    assert(a@ =~= b@);
    true
}

fn rule_eq(a: &Option<RecurrenceRuleInfo>, b: &Option<RecurrenceRuleInfo>) -> (r: bool)
    ensures
        r == same_rule(*a, *b),
{
    match (a, b) {
        (Some(x), Some(y)) => str_eq(x.frequency.as_str(), y.frequency.as_str()) && x.interval
            == y.interval && x.count == y.count && x.until == y.until,
        (None, None) => true,
        _ => false,
    }
}

fn draft_eq(a: &EventDraft, b: &EventDraft) -> (r: bool)
    ensures
        r == same_draft(*a, *b),
{
    str_eq(a.title.as_str(), b.title.as_str()) && a.start.timestamp == b.start.timestamp
        && a.end.timestamp == b.end.timestamp && str_eq(a.calendar.as_str(), b.calendar.as_str())
        && str_eq(a.calendar_id.as_str(), b.calendar_id.as_str()) && opt_text_eq(
        &a.location,
        &b.location,
    ) && opt_text_eq(&a.url, &b.url) && opt_text_eq(&a.notes, &b.notes) && a.all_day == b.all_day
        && alerts_eq(&a.alerts, &b.alerts) && rule_eq(&a.recurrence_rule, &b.recurrence_rule)
}

/// Whether two undo records are of the same change made at the same instant.
pub fn records_match(a: &UndoRecord, b: &UndoRecord) -> (r: bool)
    ensures
        r == same_record(*a, *b),
{
    let same = match (&a.action, &b.action) {
        (
            UndoAction::DeleteCreated { event_id: i1, selected_start: s1, scope: c1 },
            UndoAction::DeleteCreated { event_id: i2, selected_start: s2, scope: c2 },
        ) => str_eq(i1.as_str(), i2.as_str()) && s1.timestamp == s2.timestamp && *c1 == *c2,
        (UndoAction::RestoreDeleted { draft: d1 }, UndoAction::RestoreDeleted { draft: d2 }) =>
            draft_eq(d1, d2),
        (
            UndoAction::ReplaceWithDraft {
                current_event_id: i1,
                current_start: s1,
                current_scope: c1,
                draft: d1,
            },
            UndoAction::ReplaceWithDraft {
                current_event_id: i2,
                current_start: s2,
                current_scope: c2,
                draft: d2,
            },
        ) => str_eq(i1.as_str(), i2.as_str()) && s1.timestamp == s2.timestamp && *c1 == *c2
            && draft_eq(d1, d2),
        (UndoAction::Unavailable { reason: r1 }, UndoAction::Unavailable { reason: r2 }) =>
            str_eq(r1.as_str(), r2.as_str()),
        _ => false,
    };
    same && a.recorded_at.timestamp == b.recorded_at.timestamp
}

/// What to do with the pending-undo claim once its change is finished: remove it (`true`)
/// when it is the expected record, leave things as they are (`false`) when there is none,
/// and refuse when it records another change.
pub fn pending_claim_to_clear(claim: Option<&UndoRecord>, expected: &UndoRecord) -> (r: Result<
    bool,
    AppError,
>)
    ensures
        claim is None ==> r == Ok::<bool, AppError>(false),
        claim matches Some(c) && same_record(*c, *expected) ==> r == Ok::<bool, AppError>(true),
        claim matches Some(c) && !same_record(*c, *expected) ==> (r matches Err(e) && e.is(
            (ErrorKind::Io, "pending undo record did not match the expected action"@),
        )),
{
    match claim {
        Some(c) => {
            if records_match(c, expected) {
                Ok(true)
            } else {
                Err(AppError::Io(string_from_chars(&chars_of("pending undo record did not match the expected action"))))
            }
        },
        None => Ok(false),
    }
}

/// A change is refused while an undo is in progress.
pub fn reject_pending_undo(pending_claim: bool) -> (r: Result<(), AppError>)
    ensures
        pending_claim ==> (r matches Err(e) && e.is(
            (ErrorKind::InvalidArgument, pending_block_message()),
        )),
        !pending_claim ==> r is Ok,
{
    if pending_claim {
        return Err(
            invalid_argument_str(
                "Undo is already in progress. Finish it with `calx undo` before making another change.",
            ),
        );
    }
    Ok(())
}

/// Checks, before a change, that no undo is in progress.
pub fn ensure_no_pending_undo(pending_claim: bool) -> (r: Result<(), AppError>)
    ensures
        pending_claim ==> (r matches Err(e) && e.is(
            (ErrorKind::InvalidArgument, pending_block_message()),
        )),
        !pending_claim ==> r is Ok,
{
    reject_pending_undo(pending_claim)
}

/// Records an undoable change: refused while an undo is in progress; otherwise appended, and
/// only the last twenty records are kept.
pub fn save_undo(
    stack: &mut Vec<UndoRecord>,
    pending_claim: bool,
    action: UndoAction,
    recorded_at: Moment,
) -> (r: Result<(), AppError>)
    ensures
        pending_claim ==> (r matches Err(e) && e.is(
            (ErrorKind::InvalidArgument, pending_block_message()),
        )) && final(stack)@ == old(stack)@,
        !pending_claim ==> r is Ok && final(stack)@ == keep_last(
            old(stack)@.push(UndoRecord { action, recorded_at }),
            MAX_UNDO_STACK as nat,
        ),
{
    match reject_pending_undo(pending_claim) {
        Err(e) => return Err(e),
        Ok(()) => {},
    }
    stack.push(UndoRecord { action, recorded_at });
    trim_undo_stack(stack);
    Ok(())
}

/// The most recent record, if any.
pub fn load_undo(stack: &Vec<UndoRecord>) -> (r: Option<&UndoRecord>)
    ensures
        stack@.len() == 0 ==> r is None,
        stack@.len() > 0 ==> (r matches Some(x) && *x == stack@.last()),
{
    if stack.len() == 0 {
        None
    } else {
        Some(&stack[stack.len() - 1])
    }
}

/// The message when another undo holds the claim.
pub open spec fn busy_message() -> Seq<char> {
    "Undo is already in progress. Try again in a moment."@
}

/// Claims the record to undo: a pending claim whose owner is gone or which is stale is taken
/// over; a live one refuses; otherwise the most recent record leaves the history.
pub fn take_undo(
    stack: &mut Vec<UndoRecord>,
    pending: Option<UndoRecord>,
    pending_recoverable: bool,
) -> (r: Result<Option<UndoRecord>, AppError>)
    ensures
        pending is Some && pending_recoverable ==> r == Ok::<Option<UndoRecord>, AppError>(pending)
            && final(stack)@ == old(stack)@,
        pending is Some && !pending_recoverable ==> (r matches Err(e) && e.is(
            (ErrorKind::InvalidArgument, busy_message()),
        )) && final(stack)@ == old(stack)@,
        pending is None && old(stack)@.len() == 0 ==> r == Ok::<Option<UndoRecord>, AppError>(None)
            && final(stack)@ == old(stack)@,
        pending is None && old(stack)@.len() > 0 ==> r == Ok::<Option<UndoRecord>, AppError>(
            Some(old(stack)@.last()),
        ) && final(stack)@ == old(stack)@.drop_last(),
{
    match pending {
        Some(record) => {
            if pending_recoverable {
                Ok(Some(record))
            } else {
                Err(invalid_argument_str("Undo is already in progress. Try again in a moment."))
            }
        },
        None => Ok(stack.pop()),
    }
}

/// Puts a claimed record back on top of the history.
pub fn restore_undo_record(stack: &mut Vec<UndoRecord>, record: UndoRecord)
    ensures
        final(stack)@ == keep_last(old(stack)@.push(record), MAX_UNDO_STACK as nat),
{
    stack.push(record);
    trim_undo_stack(stack);
}

/// Drops the most recent record, if any.
pub fn clear_undo(stack: &mut Vec<UndoRecord>)
    ensures
        old(stack)@.len() == 0 ==> final(stack)@ == old(stack)@,
        old(stack)@.len() > 0 ==> final(stack)@ == old(stack)@.drop_last(),
{
    let _ = stack.pop();
}

/// A pending claim may be taken over when it is stale or its process is gone.
pub fn pending_claim_is_recoverable(stale: bool, process_exists: bool) -> (r: bool)
    ensures
        r == (stale || !process_exists),
{
    stale || !process_exists
}

/// Milliseconds after which a pending claim is stale.
pub const PENDING_UNDO_STALE_AFTER_MS: u128 = 300000;

/// Milliseconds after which the state lock is stale.
pub const LOCK_STALE_AFTER_MS: u128 = 30000;

/// Whether a claim made at `claimed_ms` is stale at `now_ms` (the clock going back counts as
/// no time passed).
pub fn claim_is_stale(now_ms: u128, claimed_ms: u128) -> (r: bool)
    ensures
        r == (now_ms > claimed_ms && now_ms - claimed_ms > PENDING_UNDO_STALE_AFTER_MS),
{
    let elapsed = if now_ms > claimed_ms {
        now_ms - claimed_ms
    } else {
        0
    };
    elapsed > PENDING_UNDO_STALE_AFTER_MS
}

/// Whether a lock taken at `created_ms` is stale at `now_ms`.
pub fn lock_is_stale(now_ms: u128, created_ms: u128) -> (r: bool)
    ensures
        r == (now_ms > created_ms && now_ms - created_ms > LOCK_STALE_AFTER_MS),
{
    let elapsed = if now_ms > created_ms {
        now_ms - created_ms
    } else {
        0
    };
    elapsed > LOCK_STALE_AFTER_MS
}

} // verus!
