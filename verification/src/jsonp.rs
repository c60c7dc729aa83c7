//! Framing of the JSONP answers of the analytics endpoints: the body is a
//! callback wrapper whose payload becomes JSON once single quotes are swapped
//! for double quotes.
use vstd::prelude::*;
use crate::text;

verus! {

/// Each byte read as the character with the same code point (Latin-1).
pub open spec fn latin1(bytes: Seq<u8>) -> Seq<char> {
    bytes.map_values(|b: u8| b as char)
}

/// Index of the first occurrence of `c` in `s`, or `s.len()` when it does not occur.
pub open spec fn first_index_or_len(s: Seq<char>, c: char) -> int
    decreases s.len(),
{
    if s.len() == 0 {
        0
    } else if s[0] == c {
        0
    } else {
        1 + first_index_or_len(s.drop_first(), c)
    }
}

/// `s` without its last two characters (fewer if it is shorter).
pub open spec fn drop_last_two(s: Seq<char>) -> Seq<char> {
    if s.len() >= 2 {
        s.take(s.len() - 2)
    } else {
        Seq::empty()
    }
}

/// Every single quote replaced by a double quote.
pub open spec fn quotes_to_double(s: Seq<char>) -> Seq<char> {
    s.map_values(|c: char| if c == '\'' { '"' } else { c })
}

/// The JSON text carried by a JSONP body: the characters before the first
/// line break are dropped, the last two characters are dropped, and single
/// quotes become double quotes.
pub open spec fn spec_jsonp_payload(body: Seq<u8>) -> Seq<char> {
    let s = latin1(body);
    quotes_to_double(drop_last_two(s.skip(first_index_or_len(s, '\n'))))
}

proof fn lemma_first_index_unique(s: Seq<char>, c: char, k: int)
    requires
        0 <= k <= s.len(),
        k < s.len() ==> s[k] == c,
        forall|j: int| 0 <= j < k ==> s[j] != c,
    ensures
        first_index_or_len(s, c) == k,
    decreases s.len(),
{
    if s.len() > 0 && k > 0 {
        assert(s[0] != c);
        lemma_first_index_unique(s.drop_first(), c, k - 1);
    }
}

/// A body made of a callback line, a line break, the payload and a two-character
/// closing gives back the line break followed by the payload with single quotes
/// turned into double quotes; the result never holds a single quote.
pub proof fn lemma_jsonp_framing(callback: Seq<u8>, payload: Seq<u8>, closing: Seq<u8>)
    requires
        forall|i: int| 0 <= i < callback.len() ==> callback[i] != 0x0a,
        closing.len() == 2,
    ensures
        spec_jsonp_payload(callback + seq![0x0au8] + payload + closing) == seq!['\n']
            + quotes_to_double(latin1(payload)),
        forall|i: int|
            0 <= i < spec_jsonp_payload(callback + seq![0x0au8] + payload + closing).len()
                ==> spec_jsonp_payload(callback + seq![0x0au8] + payload + closing)[i] != '\'',
{
    let body = callback + seq![0x0au8] + payload + closing;
    let s = latin1(body);
    let k = callback.len() as int;
    assert(s[k] == '\n');
    assert forall|j: int| 0 <= j < k implies s[j] != '\n' by {
        assert(body[j] == callback[j]);
        assert((body[j] as char) != '\n');
    }
    lemma_first_index_unique(s, '\n', k);
    assert(drop_last_two(s.skip(k)) =~= seq!['\n'] + latin1(payload));
}

/// Extracts the JSON text of a JSONP body (see `spec_jsonp_payload`).
pub fn jsonp_payload(body: &[u8]) -> (json: String)
    ensures
        json@ == spec_jsonp_payload(body@),
{
    let ghost s = latin1(body@);
    let n = body.len();
    let mut cut: usize = 0;
    while cut < n && body[cut] != 0x0au8
        invariant
            n == body@.len(),
            s == latin1(body@),
            cut <= n,
            forall|j: int| 0 <= j < cut ==> s[j] != '\n',
        decreases n - cut,
    {
        cut = cut + 1;
    }
    proof {
        lemma_first_index_unique(s, '\n', cut as int);
    }
    let end: usize = if n - cut >= 2 { n - 2 } else { cut };
    let mut out: Vec<char> = Vec::new();
    let mut i: usize = cut;
    while i < end
        invariant
            n == body@.len(),
            s == latin1(body@),
            cut <= i <= end <= n,
            out@ == quotes_to_double(s.subrange(cut as int, i as int)),
        decreases end - i,
    {
        let c = body[i] as char;
        let q = if c == '\'' { '"' } else { c };
        out.push(q);
        assert(quotes_to_double(s.subrange(cut as int, i + 1)) =~= quotes_to_double(
            s.subrange(cut as int, i as int),
        ).push(q));
        i = i + 1;
    }
    assert(drop_last_two(s.skip(cut as int)) =~= s.subrange(cut as int, end as int));
    text::string_of(out.as_slice())
}

} // verus!
