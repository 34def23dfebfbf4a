//! Edit scripts: why the edit distance is the least number of edits.

use vstd::prelude::*;
use crate::fuzzy::{edit_distance, lemma_distance_bounds, lemma_distance_to_self};

verus! {

/// The change of one character in a string.
pub enum Edit {
    /// Puts `c` before the character at `at`, or at the end where `at` is the length.
    Insert { at: int, c: char },
    /// Takes the character at `at` away.
    Delete { at: int },
    /// Puts `c` in the place of the character at `at`.
    Substitute { at: int, c: char },
}

/// Whether `edit` can be made in `s`: its place lies in `s`.
pub open spec fn fits(edit: Edit, s: Seq<char>) -> bool {
    match edit {
        Edit::Insert { at, .. } => 0 <= at <= s.len(),
        Edit::Delete { at } => 0 <= at < s.len(),
        Edit::Substitute { at, .. } => 0 <= at < s.len(),
    }
}

/// `s` after `edit`.
pub open spec fn apply(edit: Edit, s: Seq<char>) -> Seq<char> {
    match edit {
        Edit::Insert { at, c } => s.insert(at, c),
        Edit::Delete { at } => s.remove(at),
        Edit::Substitute { at, c } => s.update(at, c),
    }
}

/// Whether the edits of `script` can be made in `s`, one after the other.
pub open spec fn script_fits(script: Seq<Edit>, s: Seq<char>) -> bool
    decreases script.len(),
{
    script.len() == 0 || (fits(script.first(), s) && script_fits(
        script.drop_first(),
        apply(script.first(), s),
    ))
}

/// `s` after the edits of `script`, one after the other.
pub open spec fn apply_script(script: Seq<Edit>, s: Seq<char>) -> Seq<char>
    decreases script.len(),
{
    if script.len() == 0 {
        s
    } else {
        apply_script(script.drop_first(), apply(script.first(), s))
    }
}

/// Whether `script` turns `a` into `b`.
pub open spec fn turns(script: Seq<Edit>, a: Seq<char>, b: Seq<char>) -> bool {
    script_fits(script, a) && apply_script(script, a) == b
}

/// One edit brings a string no more than one step nearer to another.
pub proof fn lemma_edit_step(edit: Edit, s: Seq<char>, b: Seq<char>)
    requires
        fits(edit, s),
    ensures
        edit_distance(s, b) <= edit_distance(apply(edit, s), b) + 1,
    decreases s.len() + b.len(),
{
    let t = apply(edit, s);
    lemma_distance_bounds(t, b);
    if b.len() > 0 && s.len() > 0 && t.len() > 0 {
        let s1 = s.drop_last();
        let b1 = b.drop_last();
        match edit {
            Edit::Insert { at, .. } if at == s.len() => {
                assert(t.drop_last() =~= s);
                lemma_edit_step(edit, s, b1);
            },
            Edit::Delete { at } if at == s.len() - 1 => {},
            Edit::Substitute { at, .. } if at == s.len() - 1 => {
                assert(t.drop_last() =~= s1);
                lemma_edit_step(edit, s, b1);
            },
            _ => {
                assert(t.drop_last() =~= apply(edit, s1));
                lemma_edit_step(edit, s1, b);
                lemma_edit_step(edit, s, b1);
                lemma_edit_step(edit, s1, b1);
            },
        }
    }
}

/// No script that turns `a` into `b` has fewer edits than the edit distance.
pub proof fn lemma_no_shorter_script(script: Seq<Edit>, a: Seq<char>, b: Seq<char>)
    requires
        turns(script, a, b),
    ensures
        script.len() >= edit_distance(a, b),
    decreases script.len(),
{
    if script.len() == 0 {
        lemma_distance_to_self(a);
    } else {
        lemma_edit_step(script.first(), a, b);
        lemma_no_shorter_script(script.drop_first(), apply(script.first(), a), b);
    }
}

/// A script with one more edit at its end makes that edit last.
pub proof fn lemma_script_push(script: Seq<Edit>, edit: Edit, s: Seq<char>)
    requires
        script_fits(script, s),
        fits(edit, apply_script(script, s)),
    ensures
        script_fits(script.push(edit), s),
        apply_script(script.push(edit), s) == apply(edit, apply_script(script, s)),
    decreases script.len(),
{
    let longer = script.push(edit);
    if script.len() == 0 {
        assert(script_fits(longer.drop_first(), apply(edit, s)));
        assert(apply_script(longer.drop_first(), apply(edit, s)) == apply(edit, s));
    } else {
        assert(longer.drop_first() =~= script.drop_first().push(edit));
        lemma_script_push(script.drop_first(), edit, apply(script.first(), s));
    }
}

/// A script leaves alone a character that follows the string.
pub proof fn lemma_script_frame(script: Seq<Edit>, s: Seq<char>, x: char)
    requires
        script_fits(script, s),
    ensures
        script_fits(script, s.push(x)),
        apply_script(script, s.push(x)) == apply_script(script, s).push(x),
    decreases script.len(),
{
    if script.len() > 0 {
        let edit = script.first();
        assert(apply(edit, s.push(x)) =~= apply(edit, s).push(x));
        lemma_script_frame(script.drop_first(), apply(edit, s), x);
    }
}

/// Two scripts in a row turn the first string into the third.
pub proof fn lemma_script_concat(
    first: Seq<Edit>,
    second: Seq<Edit>,
    a: Seq<char>,
    b: Seq<char>,
    c: Seq<char>,
)
    requires
        turns(first, a, b),
        turns(second, b, c),
    ensures
        turns(first + second, a, c),
    decreases first.len(),
{
    if first.len() > 0 {
        assert((first + second).drop_first() =~= first.drop_first() + second);
        lemma_script_concat(first.drop_first(), second, apply(first.first(), a), b, c);
    }
}

/// The edit that makes the last character of `b` the last of a string with
/// one character less.
pub open spec fn append_last(b: Seq<char>) -> Edit {
    Edit::Insert { at: b.len() - 1, c: b.last() }
}

/// The edit that makes the last character of `b` the last of a string of the
/// same length.
pub open spec fn replace_last(b: Seq<char>) -> Edit {
    Edit::Substitute { at: b.len() - 1, c: b.last() }
}

/// The edit that takes the last character of `a` away.
pub open spec fn delete_last(a: Seq<char>) -> Edit {
    Edit::Delete { at: a.len() - 1 }
}

/// A shortest script that turns `a` into `b`. Its last step deletes the last
/// character of `a`, inserts the last of `b`, or lines the two up, whichever
/// costs least.
pub open spec fn shortest_script(a: Seq<char>, b: Seq<char>) -> Seq<Edit>
    decreases a.len() + b.len(),
{
    if a.len() == 0 && b.len() == 0 {
        seq![]
    } else if b.len() == 0 {
        seq![delete_last(a)] + shortest_script(a.drop_last(), b)
    } else if a.len() == 0 {
        shortest_script(a, b.drop_last()).push(append_last(b))
    } else {
        let delete = edit_distance(a.drop_last(), b) + 1;
        let insert = edit_distance(a, b.drop_last()) + 1;
        let keep = edit_distance(a.drop_last(), b.drop_last()) + (if a.last() == b.last() {
            0nat
        } else {
            1nat
        });
        if delete <= insert && delete <= keep {
            seq![delete_last(a)] + shortest_script(a.drop_last(), b)
        } else if insert <= keep {
            shortest_script(a, b.drop_last()).push(append_last(b))
        } else if a.last() == b.last() {
            shortest_script(a.drop_last(), b.drop_last())
        } else {
            shortest_script(a.drop_last(), b.drop_last()).push(replace_last(b))
        }
    }
}

/// The shortest script turns `a` into `b` with as many edits as the edit distance.
pub proof fn lemma_shortest_script(a: Seq<char>, b: Seq<char>)
    ensures
        turns(shortest_script(a, b), a, b),
        shortest_script(a, b).len() == edit_distance(a, b),
    decreases a.len() + b.len(), 1nat,
{
    if a.len() == 0 && b.len() == 0 {
        assert(a =~= b);
    } else if b.len() == 0 {
        lemma_deletes_last(a, b);
    } else if a.len() == 0 {
        lemma_inserts_last(a, b);
    } else {
        let delete = edit_distance(a.drop_last(), b) + 1;
        let insert = edit_distance(a, b.drop_last()) + 1;
        let keep = edit_distance(a.drop_last(), b.drop_last()) + (if a.last() == b.last() {
            0nat
        } else {
            1nat
        });
        if delete <= insert && delete <= keep {
            lemma_deletes_last(a, b);
        } else if insert <= keep {
            lemma_inserts_last(a, b);
        } else {
            let a1 = a.drop_last();
            let b1 = b.drop_last();
            let front = shortest_script(a1, b1);
            lemma_shortest_script(a1, b1);
            lemma_script_frame(front, a1, a.last());
            assert(a1.push(a.last()) =~= a);
            if a.last() == b.last() {
                assert(b1.push(a.last()) =~= b);
            } else {
                let edit = replace_last(b);
                lemma_script_push(front, edit, a);
                assert(apply(edit, b1.push(a.last())) =~= b);
            }
        }
    }
}

/// Deleting the last character of `a`, then turning the rest into `b`.
proof fn lemma_deletes_last(a: Seq<char>, b: Seq<char>)
    requires
        a.len() > 0,
    ensures
        turns(seq![delete_last(a)] + shortest_script(a.drop_last(), b), a, b),
        (seq![delete_last(a)] + shortest_script(a.drop_last(), b)).len()
            == edit_distance(a.drop_last(), b) + 1,
    decreases a.len() + b.len(), 0nat,
{
    let edit = delete_last(a);
    let rest = shortest_script(a.drop_last(), b);
    let script = seq![edit] + rest;
    lemma_shortest_script(a.drop_last(), b);
    assert(script.drop_first() =~= rest);
}

/// Turning `a` into all of `b` but its last character, then inserting that.
proof fn lemma_inserts_last(a: Seq<char>, b: Seq<char>)
    requires
        b.len() > 0,
    ensures
        turns(shortest_script(a, b.drop_last()).push(append_last(b)), a, b),
        shortest_script(a, b.drop_last()).push(append_last(b)).len() == edit_distance(
            a,
            b.drop_last(),
        ) + 1,
    decreases a.len() + b.len(), 0nat,
{
    let edit = append_last(b);
    let front = shortest_script(a, b.drop_last());
    lemma_shortest_script(a, b.drop_last());
    lemma_script_push(front, edit, a);
    assert(apply(edit, b.drop_last()) =~= b);
}

/// The edit distance is the least number of insertions, deletions and
/// substitutions of one character that turn `a` into `b`: some script has as
/// many edits, and none has fewer.
pub proof fn lemma_distance_is_least(a: Seq<char>, b: Seq<char>)
    ensures
        exists|script: Seq<Edit>|
            #[trigger] turns(script, a, b) && script.len() == edit_distance(a, b),
        forall|script: Seq<Edit>|
            #[trigger] turns(script, a, b) ==> script.len() >= edit_distance(a, b),
{
    lemma_shortest_script(a, b);
    assert forall|script: Seq<Edit>| #[trigger] turns(script, a, b) implies script.len()
        >= edit_distance(a, b) by {
        lemma_no_shorter_script(script, a, b);
    }
}

/// The way round by a third string is no shorter than the direct way.
pub proof fn lemma_distance_triangle(a: Seq<char>, b: Seq<char>, c: Seq<char>)
    ensures
        edit_distance(a, c) <= edit_distance(a, b) + edit_distance(b, c),
{
    lemma_shortest_script(a, b);
    lemma_shortest_script(b, c);
    lemma_script_concat(shortest_script(a, b), shortest_script(b, c), a, b, c);
    lemma_no_shorter_script(shortest_script(a, b) + shortest_script(b, c), a, c);
}

} // verus!
