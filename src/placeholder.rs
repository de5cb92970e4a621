//! Literal replacement of the `{{name}}` and `{{camel_name}}` placeholders in
//! template text.

use heck::ToUpperCamelCase as _;
use vstd::prelude::*;
use vstd::string::StringSliceAdditionalSpecFns;
use vstd::utf8::*;

verus! {

/// The bytes of the `{{name}}` placeholder.
pub open spec fn name_token() -> Seq<u8> {
    seq![123u8, 123u8, 110u8, 97u8, 109u8, 101u8, 125u8, 125u8]
}

/// The bytes of the `{{camel_name}}` placeholder.
pub open spec fn camel_token() -> Seq<u8> {
    seq![
        123u8, 123u8, 99u8, 97u8, 109u8, 101u8, 108u8, 95u8, 110u8, 97u8, 109u8, 101u8, 125u8,
        125u8,
    ]
}

/// Whether `pat` occurs in `s` at position `i`.
pub open spec fn occurs_at(s: Seq<u8>, pat: Seq<u8>, i: int) -> bool {
    0 <= i && i + pat.len() <= s.len() && s.subrange(i, i + pat.len()) == pat
}

/// `s` with every occurrence of `pat`, taken left to right without overlap,
/// replaced by `rep`. An empty `pat` matches nowhere.
pub open spec fn replace_all(s: Seq<u8>, pat: Seq<u8>, rep: Seq<u8>) -> Seq<u8>
    decreases s.len(),
{
    if s.len() == 0 {
        s
    } else if pat.len() > 0 && occurs_at(s, pat, 0) {
        rep + replace_all(s.skip(pat.len() as int), pat, rep)
    } else {
        seq![s[0]] + replace_all(s.skip(1), pat, rep)
    }
}

/// The upper-camel-case form that `heck` gives of a name.
pub uninterp spec fn upper_camel(s: Seq<char>) -> Seq<char>;

/// Whether `c` is an ASCII letter or digit.
pub open spec fn is_ascii_alnum(c: char) -> bool {
    ('0' <= c && c <= '9') || ('a' <= c && c <= 'z') || ('A' <= c && c <= 'Z')
}

/// `text` with the name placeholder replaced by `name`, then the camel-case
/// placeholder replaced by `camel`.
pub open spec fn substituted(text: Seq<u8>, name: Seq<u8>, camel: Seq<u8>) -> Seq<u8> {
    replace_all(replace_all(text, name_token(), name), camel_token(), camel)
}

/// The substitution of placeholders for the project name `name`.
pub open spec fn substitution_for(text: Seq<u8>, name: Seq<char>) -> Seq<u8> {
    substituted(text, encode_utf8(name), encode_utf8(upper_camel(name)))
}

/// Relies on heck's `ToUpperCamelCase` for `str`: without its `unicode`
/// feature it splits words at every byte that is no ASCII letter or digit,
/// drops the separators and changes only the case of what is left.
#[verifier::external_body]
fn to_upper_camel(name: &str) -> (r: String)
    ensures
        r@ == upper_camel(name@),
        forall|i: int| 0 <= i < r@.len() ==> is_ascii_alnum(#[trigger] r@[i]),
{
    name.to_upper_camel_case()
}

/// Whether `pat` occurs in `s` at position `i`.
fn occurs_at_exec(s: &[u8], pat: &[u8], i: usize) -> (r: bool)
    requires
        i <= s@.len(),
    ensures
        r == occurs_at(s@, pat@, i as int),
{
    let n = s.len();
    if pat.len() > n - i {
        return false;
    }
    let mut j: usize = 0;
    while j < pat.len()
        invariant
            n == s@.len(),
            i + pat@.len() <= s@.len(),
            j <= pat@.len(),
            forall|k: int| 0 <= k < j ==> s@[i + k] == pat@[k],
        decreases pat@.len() - j,
    {
        if s[i + j] != pat[j] {
            assert(s@.subrange(i as int, i + pat@.len())[j as int] != pat@[j as int]);
            return false;
        }
        j = j + 1;
    }
    assert(s@.subrange(i as int, i + pat@.len()) =~= pat@);
    true
}

/// Replaces every occurrence of `pat` in `s`, left to right, by `rep`.
pub fn replace_bytes(s: &[u8], pat: &[u8], rep: &[u8]) -> (r: Vec<u8>)
    requires
        pat@.len() > 0,
    ensures
        r@ == replace_all(s@, pat@, rep@),
{
    let mut out: Vec<u8> = Vec::new();
    let mut i: usize = 0;
    assert(s@.skip(0) =~= s@);
    while i < s.len()
        invariant
            pat@.len() > 0,
            i <= s@.len(),
            out@ + replace_all(s@.skip(i as int), pat@, rep@) == replace_all(s@, pat@, rep@),
        decreases s@.len() - i,
    {
        let ghost rest = s@.skip(i as int);
        if occurs_at_exec(s, pat, i) {
            assert(rest.subrange(0, pat@.len() as int) =~= s@.subrange(i as int, i + pat@.len()));
            assert(rest.skip(pat@.len() as int) =~= s@.skip(i + pat@.len()));
            let mut k: usize = 0;
            let ghost before = out@;
            while k < rep.len()
                invariant
                    k <= rep@.len(),
                    out@ == before + rep@.subrange(0, k as int),
                decreases rep@.len() - k,
            {
                out.push(rep[k]);
                k = k + 1;
                assert(out@ =~= before + rep@.subrange(0, k as int));
            }
            assert(rep@.subrange(0, rep@.len() as int) =~= rep@);
            assert(out@ + replace_all(s@.skip(i + pat@.len()), pat@, rep@) =~= before + (rep@
                + replace_all(rest.skip(pat@.len() as int), pat@, rep@)));
            i = i + pat.len();
        } else {
            assert(!occurs_at(rest, pat@, 0)) by {
                if occurs_at(rest, pat@, 0) {
                    assert(rest.subrange(0, pat@.len() as int) =~= s@.subrange(
                        i as int,
                        i + pat@.len(),
                    ));
                }
            }
            assert(rest.skip(1) =~= s@.skip(i + 1));
            let ghost before = out@;
            out.push(s[i]);
            assert(out@ + replace_all(s@.skip(i + 1), pat@, rep@) =~= before + (seq![rest[0]]
                + replace_all(rest.skip(1), pat@, rep@)));
            i = i + 1;
        }
    }
    assert(s@.skip(i as int) =~= Seq::<u8>::empty());
    assert(out@ + Seq::<u8>::empty() =~= out@);
    out
}

/// Replaces `{{name}}` in `text` by `name`, then `{{camel_name}}` by
/// `camel`.
pub fn substitute_names(text: &[u8], name: &str, camel: &str) -> (r: Vec<u8>)
    ensures
        r@ == substituted(text@, encode_utf8(name@), encode_utf8(camel@)),
{
    let name_pat: [u8; 8] = [123u8, 123u8, 110u8, 97u8, 109u8, 101u8, 125u8, 125u8];
    let camel_pat: [u8; 14] = [
        123u8, 123u8, 99u8, 97u8, 109u8, 101u8, 108u8, 95u8, 110u8, 97u8, 109u8, 101u8, 125u8,
        125u8,
    ];
    assert(name_pat@ =~= name_token());
    assert(camel_pat@ =~= camel_token());
    let named = replace_bytes(text, name_pat.as_slice(), name.as_bytes());
    replace_bytes(named.as_slice(), camel_pat.as_slice(), camel.as_bytes())
}

/// Replaces the name placeholders in `text` for the project name `name`:
/// first `{{name}}` by `name` itself, then `{{camel_name}}` by its
/// upper-camel-case form.
pub fn substitute(text: &[u8], name: &str) -> (r: Vec<u8>)
    ensures
        r@ == substitution_for(text@, name@),
        forall|i: int|
            0 <= i < upper_camel(name@).len() ==> is_ascii_alnum(#[trigger] upper_camel(name@)[i]),
{
    let camel = to_upper_camel(name);
    substitute_names(text, name, camel.as_str())
}

/// Replacing a pattern in text that holds none of its leading byte changes
/// nothing.
pub proof fn lemma_replace_without_lead(s: Seq<u8>, pat: Seq<u8>, rep: Seq<u8>)
    requires
        pat.len() > 0,
        forall|i: int| 0 <= i < s.len() ==> s[i] != pat[0],
    ensures
        replace_all(s, pat, rep) == s,
    decreases s.len(),
{
    if s.len() > 0 {
        if occurs_at(s, pat, 0) {
            assert(s.subrange(0, pat.len() as int)[0] == s[0]);
        }
        lemma_replace_without_lead(s.skip(1), pat, rep);
        assert(seq![s[0]] + s.skip(1) =~= s);
    }
}

/// No byte of the UTF-8 encoding of a text is `{` unless the text holds
/// that character: every byte of a multi-byte character has its high bit
/// set.
pub proof fn lemma_encoding_without_brace(n: Seq<char>)
    requires
        forall|i: int| 0 <= i < n.len() ==> #[trigger] n[i] != '{',
    ensures
        forall|i: int| 0 <= i < encode_utf8(n).len() ==> #[trigger] encode_utf8(n)[i] != 123u8,
    decreases n.len(),
{
    if n.len() > 0 {
        broadcast use char_u32_cast, char_is_scalar;

        let v = n[0] as u32;
        assert(n[0] != '{');
        assert(('{' as u32) == 123u32);
        assert(v != 123u32) by {
            if v == 123u32 {
                char_u32_cast(n[0], v);
                char_u32_cast('{', 123u32);
            }
        }
        assert(forall|x: u8|
            (0x80u8 | x) != 123u8 && (0xC0u8 | x) != 123u8 && (0xE0u8 | x) != 123u8 && (0xF0u8
                | x) != 123u8) by (bit_vector);
        assert(v <= 0x7fu32 && v != 123u32 ==> (v & 0x7fu32) as u8 != 123u8) by (bit_vector);
        let head = encode_scalar(v);
        assert forall|i: int| 0 <= i < head.len() implies head[i] != 123u8 by {}
        let rest = n.drop_first();
        assert forall|i: int| 0 <= i < rest.len() implies #[trigger] rest[i] != '{' by {
            assert(rest[i] == n[i + 1]);
        }
        lemma_encoding_without_brace(rest);
        assert forall|i: int| 0 <= i < encode_utf8(n).len() implies #[trigger] encode_utf8(n)[i] != 123u8 by {
            if i >= head.len() {
                assert(encode_utf8(n)[i] == encode_utf8(rest)[i - head.len()]);
            } else {
                assert(encode_utf8(n)[i] == head[i]);
            }
        }
    }
}

/// For a project name that holds no `{` (as every name made of letters,
/// digits, `-` and `_`), the bare `{{name}}` placeholder becomes the name
/// itself, and the bare `{{camel_name}}` placeholder becomes the name's
/// upper-camel-case form.
pub proof fn lemma_bare_placeholders(n: Seq<char>)
    requires
        forall|i: int| 0 <= i < n.len() ==> #[trigger] n[i] != '{',
    ensures
        substitution_for(name_token(), n) == encode_utf8(n),
        substitution_for(camel_token(), n) == encode_utf8(upper_camel(n)),
{
    let nb = encode_utf8(n);
    let cb = encode_utf8(upper_camel(n));
    let nt = name_token();
    let ct = camel_token();
    // The name token is replaced as a whole, and the name holds no brace.
    assert(occurs_at(nt, nt, 0)) by {
        assert(nt.subrange(0, 8) =~= nt);
    }
    assert(nt.skip(8) =~= Seq::<u8>::empty());
    assert(replace_all(Seq::<u8>::empty(), nt, nb) == Seq::<u8>::empty());
    assert(replace_all(nt, nt, nb) =~= nb);
    lemma_encoding_without_brace(n);
    lemma_replace_without_lead(nb, ct, cb);
    // The camel token holds no name token, and is then replaced as a whole.
    assert(!occurs_at(ct, nt, 0)) by {
        assert(ct.subrange(0, 8)[2] != nt[2]);
    }
    assert(!occurs_at(ct.skip(1), nt, 0)) by {
        assert(ct.skip(1).subrange(0, 8)[1] != nt[1]);
    }
    let tail = ct.skip(2);
    assert forall|i: int| 0 <= i < tail.len() implies tail[i] != nt[0] by {}
    lemma_replace_without_lead(tail, nt, nb);
    assert(ct.skip(1).skip(1) =~= tail);
    assert(replace_all(ct.skip(1), nt, nb) =~= seq![ct[1]] + tail);
    assert(replace_all(ct, nt, nb) =~= ct);
    assert(occurs_at(ct, ct, 0)) by {
        assert(ct.subrange(0, 14) =~= ct);
    }
    assert(ct.skip(14) =~= Seq::<u8>::empty());
    assert(replace_all(Seq::<u8>::empty(), ct, cb) == Seq::<u8>::empty());
    assert(replace_all(ct, ct, cb) =~= cb);
}

} // verus!
