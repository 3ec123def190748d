//! The text rules of the pipeline: recognising alias targets, deriving a file
//! extension from an image URL, and building the destination filename.

use vstd::prelude::*;

verus! {

/// A target that begins with this marker names another catalog entry instead
/// of an image URL; such an entry is never downloaded.
pub open spec fn alias_marker() -> Seq<char> {
    "alias:"@
}

/// Whether a target string denotes an alias of another entry.
pub open spec fn is_alias_spec(target: Seq<char>) -> bool {
    target.len() >= 6 && target.subrange(0, 6) == alias_marker()
}

/// Recognise an alias target: true exactly when `target` starts with the
/// alias marker.
pub fn is_alias(target: &str) -> (r: bool)
    ensures
        r == is_alias_spec(target@),
{
    let n: usize = target.unicode_len();
    if n < 6 {
        return false;
    }
    let c0 = target.get_char(0);
    let c1 = target.get_char(1);
    let c2 = target.get_char(2);
    let c3 = target.get_char(3);
    let c4 = target.get_char(4);
    let c5 = target.get_char(5);
    let r = c0 == 'a' && c1 == 'l' && c2 == 'i' && c3 == 'a' && c4 == 's' && c5 == ':';
    proof {
        reveal_strlit("alias:");
        if r {
            assert(target@.subrange(0, 6) =~= alias_marker());
        } else {
            if target@.subrange(0, 6) == alias_marker() {
                assert(target@.subrange(0, 6)[0] == c0);
                assert(target@.subrange(0, 6)[1] == c1);
                assert(target@.subrange(0, 6)[2] == c2);
                assert(target@.subrange(0, 6)[3] == c3);
                assert(target@.subrange(0, 6)[4] == c4);
                assert(target@.subrange(0, 6)[5] == c5);
                assert(false);
            }
        }
    }
    r
}

/// Whether the string contains a `.` anywhere.
pub open spec fn has_dot(s: Seq<char>) -> bool {
    exists|i: int| 0 <= i < s.len() && s[i] == '.'
}

/// The index of the last `.` in the string, or -1 when there is none.
pub open spec fn last_dot(s: Seq<char>) -> int
    decreases s.len(),
{
    if s.len() == 0 {
        -1
    } else if s.last() == '.' {
        s.len() - 1
    } else {
        last_dot(s.drop_last())
    }
}

proof fn lemma_last_dot(s: Seq<char>)
    ensures
        has_dot(s) ==> 0 <= last_dot(s) < s.len() && s[last_dot(s)] == '.',
        has_dot(s) ==> forall|j: int| last_dot(s) < j < s.len() ==> s[j] != '.',
        !has_dot(s) ==> last_dot(s) == -1,
    decreases s.len(),
{
    if s.len() == 0 {
    } else if s.last() == '.' {
        assert(s[s.len() - 1] == '.');
    } else {
        let d = s.drop_last();
        lemma_last_dot(d);
        if has_dot(s) {
            let i = choose|i: int| 0 <= i < s.len() && s[i] == '.';
            assert(i < s.len() - 1);
            assert(d[i] == s[i]);
            assert(has_dot(d));
            assert(s[last_dot(s)] == d[last_dot(d)]);
            assert forall|j: int| last_dot(s) < j < s.len() implies s[j] != '.' by {
                if j < s.len() - 1 {
                    assert(s[j] == d[j]);
                }
            }
        } else {
            if has_dot(d) {
                let i = choose|i: int| 0 <= i < d.len() && d[i] == '.';
                assert(s[i] == d[i]);
                assert(has_dot(s));
            }
        }
    }
}

/// The extension of a target URL: the substring after the last `.`, or the
/// fallback `bin` when the URL contains no `.` at all.
pub open spec fn extension_spec(url: Seq<char>) -> Seq<char> {
    if has_dot(url) {
        url.subrange(last_dot(url) + 1, url.len() as int)
    } else {
        "bin"@
    }
}

/// Derive the extension of a target URL: everything after the last `.`, or
/// `bin` when the URL has no `.`.
pub fn extension_of(url: &str) -> (r: String)
    ensures
        r@ == extension_spec(url@),
{
    let n: usize = url.unicode_len();
    let mut i: usize = n;
    while i > 0
        invariant
            i <= n,
            n == url@.len(),
            forall|j: int| i <= j < n ==> url@[j] != '.',
        decreases i,
    {
        let c = url.get_char(i - 1);
        if c == '.' {
            proof {
                lemma_last_dot(url@);
                assert(url@[i - 1] == '.');
                assert(has_dot(url@));
                assert(last_dot(url@) == i - 1) by {
                    if last_dot(url@) > i - 1 {
                        assert(url@[last_dot(url@)] != '.');
                    }
                    if last_dot(url@) < i - 1 {
                        assert(url@[i - 1] != '.');
                    }
                }
            }
            let ext = url.substring_char(i, n);
            return String::from_str(ext);
        }
        i = i - 1;
    }
    proof {
        if has_dot(url@) {
            let k = choose|k: int| 0 <= k < url@.len() && url@[k] == '.';
            assert(url@[k] != '.');
        }
    }
    String::from_str("bin")
}

/// The destination filename for an entry: `<name>.<extension of target>`.
pub open spec fn filename_spec(name: Seq<char>, target: Seq<char>) -> Seq<char> {
    name + "."@ + extension_spec(target)
}

/// Build the destination filename `<name>.<extension>` for a non-alias entry.
pub fn filename_for(name: &str, target: &str) -> (r: String)
    ensures
        r@ == filename_spec(name@, target@),
{
    let ext = extension_of(target);
    let mut r = String::from_str(name);
    r.append(".");
    r.append(ext.as_str());
    r
}

} // verus!
