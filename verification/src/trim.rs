//! Removing white space from both ends of a line of text.

use vstd::prelude::*;
use vstd::string::StrSliceExecFns;

use crate::chars::is_space;
use crate::chars::is_space_char;

verus! {

/// `s` with its leading white space removed.
pub open spec fn trim_start_spec(s: Seq<char>) -> Seq<char>
    decreases s.len(),
{
    if s.len() > 0 && is_space(s[0]) {
        trim_start_spec(s.drop_first())
    } else {
        s
    }
}

/// `s` with its trailing white space removed.
pub open spec fn trim_end_spec(s: Seq<char>) -> Seq<char>
    decreases s.len(),
{
    if s.len() > 0 && is_space(s.last()) {
        trim_end_spec(s.drop_last())
    } else {
        s
    }
}

/// `s` with white space removed from both ends.
pub open spec fn trim_spec(s: Seq<char>) -> Seq<char> {
    trim_end_spec(trim_start_spec(s))
}

/// Every character of `s` is white space.
pub open spec fn all_space(s: Seq<char>) -> bool {
    forall|k: int| 0 <= k < s.len() ==> is_space(s[k])
}

/// Returns `line` with leading and trailing white space removed.
pub fn trim_line(line: &str) -> (r: String)
    ensures
        r@ == trim_spec(line@),
{
    let n = line.unicode_len();
    proof {
        assert(line@.subrange(0, n as int) =~= line@);
    }
    let mut i: usize = 0;
    while i < n && is_space_char(line.get_char(i))
        invariant
            0 <= i <= n,
            n == line@.len(),
            trim_start_spec(line@) == trim_start_spec(line@.subrange(i as int, n as int)),
        decreases n - i,
    {
        proof {
            let t = line@.subrange(i as int, n as int);
            assert(t[0] == line@[i as int]);
            assert(t.drop_first() =~= line@.subrange(i as int + 1, n as int));
        }
        i += 1;
    }
    proof {
        let t = line@.subrange(i as int, n as int);
        if i < n {
            assert(t[0] == line@[i as int]);
        }
        assert(trim_start_spec(line@) == line@.subrange(i as int, n as int));
    }
    let mut j: usize = n;
    while j > i && is_space_char(line.get_char(j - 1))
        invariant
            i <= j <= n,
            n == line@.len(),
            trim_start_spec(line@) == line@.subrange(i as int, n as int),
            trim_end_spec(line@.subrange(i as int, n as int)) == trim_end_spec(
                line@.subrange(i as int, j as int),
            ),
        decreases j,
    {
        proof {
            let t = line@.subrange(i as int, j as int);
            assert(t.last() == line@[j as int - 1]);
            assert(t.drop_last() =~= line@.subrange(i as int, j as int - 1));
        }
        j -= 1;
    }
    proof {
        let t = line@.subrange(i as int, j as int);
        if j > i {
            assert(t.last() == line@[j as int - 1]);
        }
        assert(trim_spec(line@) == line@.subrange(i as int, j as int));
    }
    let t = line.substring_char(i, j);
    t.to_owned()
}

proof fn lemma_trim_start_space_prefix(ws: Seq<char>, s: Seq<char>)
    requires
        all_space(ws),
    ensures
        trim_start_spec(ws + s) == trim_start_spec(s),
    decreases ws.len(),
{
    if ws.len() == 0 {
        assert(ws + s =~= s);
    } else {
        assert((ws + s)[0] == ws[0]);
        assert((ws + s).drop_first() =~= ws.drop_first() + s);
        assert(all_space(ws.drop_first()));
        lemma_trim_start_space_prefix(ws.drop_first(), s);
    }
}

proof fn lemma_trim_end_space_suffix(s: Seq<char>, ws: Seq<char>)
    requires
        all_space(ws),
    ensures
        trim_end_spec(s + ws) == trim_end_spec(s),
    decreases ws.len(),
{
    if ws.len() == 0 {
        assert(s + ws =~= s);
    } else {
        assert((s + ws).last() == ws.last());
        assert(is_space(ws.last()));
        assert((s + ws).drop_last() =~= s + ws.drop_last());
        assert(all_space(ws.drop_last()));
        lemma_trim_end_space_suffix(s, ws.drop_last());
    }
}

proof fn lemma_trim_start_append(s: Seq<char>, tail: Seq<char>)
    ensures
        trim_start_spec(s + tail) == if trim_start_spec(s).len() > 0 {
            trim_start_spec(s) + tail
        } else {
            trim_start_spec(tail)
        },
    decreases s.len(),
{
    if s.len() == 0 {
        assert(s + tail =~= tail);
    } else if is_space(s[0]) {
        assert((s + tail)[0] == s[0]);
        assert((s + tail).drop_first() =~= s.drop_first() + tail);
        lemma_trim_start_append(s.drop_first(), tail);
    } else {
        assert((s + tail)[0] == s[0]);
        assert(trim_start_spec(s) == s);
    }
}

/// Law: white space around a line does not change its trimmed form. A line
/// padded on the left and right with any white space trims to exactly what
/// the unpadded line trims to.
pub proof fn lemma_trim_surrounding_space(lead: Seq<char>, s: Seq<char>, tail: Seq<char>)
    requires
        all_space(lead),
        all_space(tail),
    ensures
        trim_spec(lead + s + tail) == trim_spec(s),
{
    assert(lead + s + tail =~= lead + (s + tail));
    lemma_trim_start_space_prefix(lead, s + tail);
    lemma_trim_start_append(s, tail);
    if trim_start_spec(s).len() > 0 {
        lemma_trim_end_space_suffix(trim_start_spec(s), tail);
    } else {
        lemma_trim_start_space_prefix(tail, Seq::<char>::empty());
        assert(tail + Seq::<char>::empty() =~= tail);
    }
}

} // verus!
