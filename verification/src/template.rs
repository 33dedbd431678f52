//! Project-template filling: the starting-URL placeholder and the
//! action-sequence placeholder token are substituted verbatim into a
//! scaffold supplied by the caller.

use vstd::prelude::*;
use vstd::string::*;
use crate::strutil::{match_at, push_char};

verus! {

/// `s` with every occurrence of `pat` replaced by `rep`, scanning left to
/// right without overlap; an empty pattern replaces nothing.
pub open spec fn spec_replace(s: Seq<char>, pat: Seq<char>, rep: Seq<char>) -> Seq<char>
    decreases s.len(),
{
    if pat.len() == 0 {
        s
    } else if s.len() < pat.len() {
        s
    } else if s.subrange(0, pat.len() as int) == pat {
        rep + spec_replace(s.subrange(pat.len() as int, s.len() as int), pat, rep)
    } else {
        seq![s[0]] + spec_replace(s.drop_first(), pat, rep)
    }
}

/// Replaces every occurrence of `pat` by `rep`, scanning left to right
/// without overlap.
pub fn replace_all(s: &str, pat: &str, rep: &str) -> (r: String)
    requires
        pat@.len() > 0,
    ensures
        r@ == spec_replace(s@, pat@, rep@),
{
    let len = s.unicode_len();
    let plen = pat.unicode_len();
    let mut out = String::new();
    proof {
        assert(s@.subrange(0, len as int) =~= s@);
        assert(Seq::<char>::empty() + spec_replace(s@, pat@, rep@) =~= spec_replace(
            s@,
            pat@,
            rep@,
        ));
    }
    let mut i: usize = 0;
    while i < len
        invariant
            i <= len,
            len == s@.len(),
            plen == pat@.len(),
            plen > 0,
            spec_replace(s@, pat@, rep@) == out@ + spec_replace(
                s@.subrange(i as int, len as int),
                pat@,
                rep@,
            ),
        decreases len - i,
    {
        let ghost tail_i = s@.subrange(i as int, len as int);
        let ghost pre_out = out@;
        if plen <= len - i && match_at(s, i, pat) {
            out.append(rep);
            proof {
                assert(tail_i.subrange(0, plen as int) =~= s@.subrange(i as int, i + plen));
                assert(tail_i.subrange(plen as int, tail_i.len() as int) =~= s@.subrange(
                    i + plen,
                    len as int,
                ));
                assert(pre_out + spec_replace(tail_i, pat@, rep@) =~= out@ + spec_replace(
                    s@.subrange(i + plen, len as int),
                    pat@,
                    rep@,
                ));
            }
            i = i + plen;
        } else {
            push_char(&mut out, s.get_char(i));
            proof {
                if plen <= len - i {
                    assert(tail_i.subrange(0, plen as int) =~= s@.subrange(i as int, i + plen));
                }
                assert(tail_i[0] == s@[i as int]);
                assert(tail_i.drop_first() =~= s@.subrange(i + 1, len as int));
                assert(pre_out + spec_replace(tail_i, pat@, rep@) =~= out@ + spec_replace(
                    s@.subrange(i + 1, len as int),
                    pat@,
                    rep@,
                ));
            }
            i = i + 1;
        }
    }
    proof {
        assert(s@.subrange(len as int, len as int) =~= Seq::<char>::empty());
        assert(out@ =~= out@ + Seq::<char>::empty());
    }
    out
}

/// A filled template: the starting-URL placeholder, then the
/// action-sequence placeholder line, substituted verbatim.
pub open spec fn spec_fill_template(
    template_content: Seq<char>,
    initial_url: Seq<char>,
    action_sequence: Seq<char>,
) -> Seq<char> {
    spec_replace(
        spec_replace(template_content, "__START_URL__"@, initial_url),
        "// __ACTION_SEQUENCE__"@,
        action_sequence,
    )
}

/// Substitutes the starting URL and the action sequence into a project
/// template.
pub fn fill_template(template_content: &str, initial_url: &str, action_sequence: &str) -> (r:
    String)
    ensures
        r@ == spec_fill_template(template_content@, initial_url@, action_sequence@),
{
    proof {
        reveal_strlit("__START_URL__");
        reveal_strlit("// __ACTION_SEQUENCE__");
    }
    let step1 = replace_all(template_content, "__START_URL__", initial_url);
    let step2 = replace_all(step1.as_str(), "// __ACTION_SEQUENCE__", action_sequence);
    step2
}

} // verus!
