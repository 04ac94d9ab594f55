//! Desktop-entry templater: a pure substitution of the icon-path and
//! executable-path markers in a template text. It performs no I/O, so it
//! can render from the cached template when the live desktop-entry fetch
//! fails.

use vstd::prelude::*;
use vstd::string::*;

verus! {

/// The marker that stands for the icon path in a template.
pub open spec fn icon_marker() -> Seq<char> {
    "{icon}"@
}

/// The marker that stands for the executable path in a template.
pub open spec fn executable_marker() -> Seq<char> {
    "{executable}"@
}

/// `s` with every occurrence of `pat` replaced by `sub`, scanning left to
/// right and never rescanning substituted text. An empty pattern leaves
/// `s` unchanged.
pub open spec fn replaced(s: Seq<char>, pat: Seq<char>, sub: Seq<char>) -> Seq<char>
    decreases s.len(),
{
    if pat.len() == 0 || s.len() < pat.len() {
        s
    } else if s.subrange(0, pat.len() as int) == pat {
        sub + replaced(s.skip(pat.len() as int), pat, sub)
    } else {
        seq![s[0]] + replaced(s.skip(1), pat, sub)
    }
}

/// The rendered desktop entry: the template with the icon marker replaced
/// by the icon path, then the executable marker replaced by the
/// executable path.
pub open spec fn render_spec(template: Seq<char>, icon_path: Seq<char>, executable_path: Seq<char>) -> Seq<char> {
    replaced(replaced(template, icon_marker(), icon_path), executable_marker(), executable_path)
}

proof fn lemma_replaced_unfold_nonmatch(s: Seq<char>, pat: Seq<char>, sub: Seq<char>)
    requires
        pat.len() > 0,
        s.len() > 0,
        s.len() < pat.len() || s.subrange(0, pat.len() as int) != pat,
    ensures
        replaced(s, pat, sub) == seq![s[0]] + replaced(s.skip(1), pat, sub),
{
    if s.len() < pat.len() {
        assert(s.skip(1).len() < pat.len());
        assert(replaced(s.skip(1), pat, sub) == s.skip(1));
        assert(seq![s[0]] + s.skip(1) =~= s);
    }
}

fn match_at(s: &str, i: usize, pat: &str) -> (r: bool)
    requires
        i + pat@.len() <= s@.len(),
    ensures
        r == (s@.subrange(i as int, i as int + pat@.len()) == pat@),
{
    let plen = pat.unicode_len();
    let n = s.unicode_len();
    let ghost piece = s@.subrange(i as int, i as int + pat@.len());
    let mut j: usize = 0;
    while j < plen
        invariant
            j <= plen,
            plen == pat@.len(),
            n == s@.len(),
            i + plen <= n,
            piece == s@.subrange(i as int, i as int + plen as int),
            forall|k: int| 0 <= k < j ==> s@[i + k] == pat@[k],
        decreases plen - j,
    {
        if s.get_char(i + j) != pat.get_char(j) {
            proof {
                assert(piece[j as int] != pat@[j as int]);
            }
            return false;
        }
        j += 1;
    }
    proof {
        assert(piece =~= pat@);
    }
    true
}

/// `s` with every occurrence of `pat` replaced by `sub`.
pub fn replace_all(s: &str, pat: &str, sub: &str) -> (r: String)
    ensures
        r@ == replaced(s@, pat@, sub@),
{
    let n = s.unicode_len();
    let plen = pat.unicode_len();
    if plen == 0 {
        return s.to_owned();
    }
    let mut out = String::new();
    let mut i: usize = 0;
    proof {
        assert(s@.skip(0) =~= s@);
        assert(out@ + replaced(s@, pat@, sub@) =~= replaced(s@, pat@, sub@));
    }
    while i < n
        invariant
            i <= n,
            n == s@.len(),
            plen == pat@.len(),
            plen > 0,
            out@ + replaced(s@.skip(i as int), pat@, sub@) == replaced(s@, pat@, sub@),
        decreases n - i,
    {
        let ghost rest = s@.skip(i as int);
        let is_match = if plen <= n - i {
            match_at(s, i, pat)
        } else {
            false
        };
        if is_match {
            out.append(sub);
            proof {
                assert(rest.len() == n - i);
                assert(rest.subrange(0, plen as int) =~= s@.subrange(i as int, i as int + plen as int));
                assert(replaced(rest, pat@, sub@) == sub@ + replaced(rest.skip(plen as int), pat@, sub@));
                assert(rest.skip(plen as int) =~= s@.skip(i as int + plen as int));
                assert((out@ + replaced(rest, pat@, sub@))
                    == (out@ + sub@) + replaced(s@.skip(i as int + plen as int), pat@, sub@)) by {
                    assert(out@ + (sub@ + replaced(s@.skip(i as int + plen as int), pat@, sub@))
                        =~= (out@ + sub@) + replaced(s@.skip(i as int + plen as int), pat@, sub@));
                }
            }
            i += plen;
        } else {
            let piece = s.substring_char(i, i + 1);
            out.append(piece);
            proof {
                assert(rest.len() == n - i);
                if plen <= n - i {
                    assert(rest.subrange(0, plen as int) =~= s@.subrange(i as int, i as int + plen as int));
                }
                lemma_replaced_unfold_nonmatch(rest, pat@, sub@);
                assert(piece@ =~= seq![rest[0]]);
                assert(rest.skip(1) =~= s@.skip(i as int + 1));
                assert((out@ + replaced(rest, pat@, sub@))
                    == (out@ + piece@) + replaced(s@.skip(i as int + 1), pat@, sub@)) by {
                    assert(out@ + (piece@ + replaced(s@.skip(i as int + 1), pat@, sub@))
                        =~= (out@ + piece@) + replaced(s@.skip(i as int + 1), pat@, sub@));
                }
            }
            i += 1;
        }
    }
    proof {
        let rest = s@.skip(i as int);
        assert(rest.len() == 0);
        assert(replaced(rest, pat@, sub@) == rest);
        assert(out@ + rest =~= out@);
    }
    out
}

/// Render the final desktop-entry content from a template and the two
/// literal paths; no escaping is applied.
pub fn render(template: &str, icon_path: &str, executable_path: &str) -> (r: String)
    ensures
        r@ == render_spec(template@, icon_path@, executable_path@),
{
    let step = replace_all(template, "{icon}", icon_path);
    replace_all(step.as_str(), "{executable}", executable_path)
}

} // verus!
