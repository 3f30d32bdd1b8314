//! Controller bindings: which input paths are buttons rather than axes.

use vstd::prelude::*;
use crate::gui::last_segment;
use crate::text::chars_of;

verus! {

/// `s` begins with `p`.
pub open spec fn starts_with(s: Seq<char>, p: Seq<char>) -> bool {
    p.len() <= s.len() && s.take(p.len() as int) == p
}

/// An input path is a button (read as a boolean) when its last component is
/// `click` or `touch`, or starts with `dpad_`.
pub open spec fn is_bool_spec(path: Seq<char>) -> bool {
    let last = last_segment(path);
    last == "click"@ || last == "touch"@ || starts_with(last, "dpad_"@)
}

fn seq_eq(a: &Vec<char>, from: usize, b: &Vec<char>) -> (r: bool)
    requires
        from <= a@.len(),
    ensures
        r == (a@.skip(from as int) == b@),
{
    if a.len() - from != b.len() {
        assert(a@.skip(from as int).len() != b@.len());
        return false;
    }
    let mut i: usize = 0;
    while i < b.len()
        invariant
            from <= a@.len(),
            a@.len() - from == b@.len(),
            i <= b@.len(),
            forall|j: int| 0 <= j < i ==> a@[from + j] == b@[j],
        decreases b@.len() - i,
    {
        assert(from + i < a.len());
        let k: usize = from + i;
        if a[k] != b[i] {
            assert(a@.skip(from as int)[i as int] != b@[i as int]);
            return false;
        }
        i = i + 1;
    }
    assert(a@.skip(from as int) =~= b@);
    true
}

fn prefix_at(a: &Vec<char>, from: usize, p: &Vec<char>) -> (r: bool)
    requires
        from <= a@.len(),
    ensures
        r == starts_with(a@.skip(from as int), p@),
{
    if a.len() - from < p.len() {
        return false;
    }
    let mut i: usize = 0;
    while i < p.len()
        invariant
            from + p@.len() <= a@.len(),
            i <= p@.len(),
            forall|j: int| 0 <= j < i ==> a@[from + j] == p@[j],
        decreases p@.len() - i,
    {
        assert(from + i < a.len());
        let k: usize = from + i;
        if a[k] != p[i] {
            assert(a@.skip(from as int).take(p@.len() as int)[i as int] != p@[i as int]);
            return false;
        }
        i = i + 1;
    }
    assert(a@.skip(from as int).take(p@.len() as int) =~= p@);
    true
}

/// Whether an input path is read as a boolean.
pub fn is_bool(path_str: &str) -> (r: bool)
    ensures
        r == is_bool_spec(path_str@),
{
    let cs = chars_of(path_str);
    let mut start: usize = cs.len();
    assert(cs@.take(start as int) == cs@);
    assert(cs@.skip(start as int) == Seq::<char>::empty());
    assert(cs@ + Seq::<char>::empty() == cs@);
    while start > 0 && cs[start - 1] != '/'
        invariant
            start <= cs@.len(),
            cs@ == path_str@,
            last_segment(cs@) == last_segment(cs@.take(start as int)) + cs@.skip(start as int),
        decreases start,
    {
        let ghost t = cs@.take(start as int);
        assert(t.drop_last() == cs@.take(start - 1));
        assert(cs@.skip(start - 1) == seq![t.last()] + cs@.skip(start as int));
        start = start - 1;
    }
    proof {
        let t = cs@.take(start as int);
        if start > 0 {
            assert(t.last() == '/');
        }
        assert(last_segment(t) == Seq::<char>::empty());
        assert(last_segment(cs@) == cs@.skip(start as int));
        reveal_strlit("click");
        reveal_strlit("touch");
        reveal_strlit("dpad_");
    }
    seq_eq(&cs, start, &chars_of("click")) || seq_eq(&cs, start, &chars_of("touch"))
        || prefix_at(&cs, start, &chars_of("dpad_"))
}

} // verus!
