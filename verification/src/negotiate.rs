//! Server-side subprotocol negotiation: picking the first acceptable token
//! from the ordered list a connecting peer offers.

use vstd::prelude::*;
use vstd::string::*;

use crate::subprotocol::{spec_parse, BlimpSubprotocol};
use crate::text::{find_char, find_char_from, lemma_find_char_shift, spec_trim, trimmed_segment};

verus! {

/// The tokens offered in a comma-separated header value, in the order given,
/// each with surrounding ASCII whitespace removed.
pub open spec fn spec_offered_tokens(s: Seq<char>) -> Seq<Seq<char>>
    decreases s.len(),
    via spec_offered_tokens_decreases
{
    let c = find_char(s, 0, ',');
    if c == s.len() {
        seq![spec_trim(s)]
    } else {
        seq![spec_trim(s.subrange(0, c))] + spec_offered_tokens(s.subrange(c + 1, s.len() as int))
    }
}

#[via_fn]
proof fn spec_offered_tokens_decreases(s: Seq<char>) {
    crate::text::lemma_find_char_props(s, 0, ',');
}

/// The subprotocol negotiation selects: the first offer that parses, in the
/// order the peer gave, or nothing when no offer parses.
pub open spec fn spec_negotiate(offers: Seq<Seq<char>>) -> Option<BlimpSubprotocol>
    decreases offers.len(),
{
    if offers.len() == 0 {
        None
    } else {
        match spec_parse(offers[0]) {
            Ok(p) => Some(p),
            Err(_) => spec_negotiate(offers.drop_first()),
        }
    }
}

/// Splits a comma-separated header value into its entries, in order, each
/// with surrounding ASCII whitespace removed.
pub fn split_header(header: &str) -> (r: Vec<String>)
    ensures
        r@.map_values(|t: String| t@) == spec_offered_tokens(header@),
{
    let len = header.unicode_len();
    let mut r: Vec<String> = Vec::new();
    let mut pos: usize = 0;
    proof {
        assert(header@.subrange(0, len as int) =~= header@);
        assert(r@.map_values(|t: String| t@) =~= Seq::<Seq<char>>::empty());
        assert(Seq::<Seq<char>>::empty() + spec_offered_tokens(header@) =~= spec_offered_tokens(
            header@,
        ));
    }
    loop
        invariant_except_break
            spec_offered_tokens(header@) == r@.map_values(|t: String| t@)
                + spec_offered_tokens(header@.subrange(pos as int, len as int)),
        invariant
            pos <= len,
            len == header@.len(),
        ensures
            r@.map_values(|t: String| t@) == spec_offered_tokens(header@),
        decreases len - pos,
    {
        let ghost suffix = header@.subrange(pos as int, len as int);
        let c = find_char_from(header, pos, ',');
        proof {
            lemma_find_char_shift(header@, pos as int, ',');
            assert(find_char(suffix, 0, ',') == c - pos);
        }
        let seg = trimmed_segment(header, pos, c);
        proof {
            assert(suffix.subrange(0, c - pos) =~= header@.subrange(pos as int, c as int));
        }
        r.push(seg);
        if c == len {
            proof {
                assert(suffix.subrange(0, c - pos) =~= suffix);
                assert(r@.map_values(|t: String| t@) =~= r@.drop_last().map_values(
                    |t: String| t@,
                ).push(seg@));
                assert(r@.map_values(|t: String| t@) =~= spec_offered_tokens(header@));
            }
            break;
        }
        proof {
            assert(suffix.subrange(c - pos + 1, suffix.len() as int) =~= header@.subrange(
                c + 1,
                len as int,
            ));
            assert(r@.map_values(|t: String| t@) =~= r@.drop_last().map_values(
                |t: String| t@,
            ).push(seg@));
        }
        pos = c + 1;
    }
    r
}

/// Picks the first candidate token that parses; candidates that fail to parse
/// are skipped, and later candidates are never consulted once one parses.
pub fn choose_subprotocol(candidates: &Vec<String>) -> (r: Option<BlimpSubprotocol>)
    ensures
        r == spec_negotiate(candidates@.map_values(|t: String| t@)),
{
    let ghost offers = candidates@.map_values(|t: String| t@);
    proof {
        assert(offers.skip(0) =~= offers);
    }
    let mut i: usize = 0;
    while i < candidates.len()
        invariant
            i <= candidates@.len(),
            offers == candidates@.map_values(|t: String| t@),
            spec_negotiate(offers) == spec_negotiate(offers.skip(i as int)),
        decreases candidates@.len() - i,
    {
        let parsed = BlimpSubprotocol::from_str(candidates[i].as_str());
        proof {
            assert(offers.skip(i as int)[0] == offers[i as int]);
        }
        match parsed {
            Ok(p) => {
                return Some(p);
            },
            Err(_) => {
                proof {
                    assert(offers.skip(i as int).drop_first() =~= offers.skip(i as int + 1));
                }
            },
        }
        i += 1;
    }
    proof {
        assert(offers.skip(candidates@.len() as int) =~= Seq::<Seq<char>>::empty());
    }
    None
}

/// Server-side negotiation over the raw offer header: splits the
/// comma-separated list the peer sent and selects the first entry that
/// parses as a supported subprotocol.
pub fn get_subprotocol(header: &str) -> (r: Option<BlimpSubprotocol>)
    ensures
        r == spec_negotiate(spec_offered_tokens(header@)),
{
    let candidates = split_header(header);
    choose_subprotocol(&candidates)
}

/// The negotiated result is exactly the first offer that parses: a selected
/// subprotocol is what some offer parses to while every earlier offer fails,
/// and nothing is selected only when every offer fails.
pub proof fn lemma_negotiate_first_match(offers: Seq<Seq<char>>)
    ensures
        match spec_negotiate(offers) {
            Some(p) => exists|i: int|
                0 <= i < offers.len() && spec_parse(#[trigger] offers[i])
                    == Ok::<BlimpSubprotocol, crate::subprotocol::SubprotocolValidationError>(p)
                    && (forall|j: int| 0 <= j < i ==> (#[trigger] spec_parse(offers[j])) is Err),
            None => forall|i: int|
                0 <= i < offers.len() ==> (#[trigger] spec_parse(offers[i])) is Err,
        },
    decreases offers.len(),
{
    if offers.len() > 0 {
        if spec_parse(offers[0]) is Ok {
            let p = spec_negotiate(offers)->Some_0;
            assert(spec_parse(offers[0])
                == Ok::<BlimpSubprotocol, crate::subprotocol::SubprotocolValidationError>(p));
        } else {
            let tail = offers.drop_first();
            lemma_negotiate_first_match(tail);
            assert(forall|k: int| 0 <= k < tail.len() ==> tail[k] == offers[k + 1]);
            match spec_negotiate(offers) {
                Some(p) => {
                    let i0 = choose|i: int|
                        0 <= i < tail.len() && spec_parse(#[trigger] tail[i])
                            == Ok::<
                            BlimpSubprotocol,
                            crate::subprotocol::SubprotocolValidationError,
                        >(p) && (forall|j: int|
                            0 <= j < i ==> (#[trigger] spec_parse(tail[j])) is Err);
                    assert(spec_parse(offers[i0 + 1])
                        == Ok::<BlimpSubprotocol, crate::subprotocol::SubprotocolValidationError>(
                        p,
                    ));
                    assert(forall|j: int|
                        0 <= j < i0 + 1 ==> (#[trigger] spec_parse(offers[j])) is Err) by {
                        assert(forall|j: int|
                            1 <= j < i0 + 1 ==> spec_parse(#[trigger] offers[j]) == spec_parse(
                                tail[j - 1],
                            ));
                    }
                },
                None => {
                    assert(forall|i: int|
                        1 <= i < offers.len() ==> (#[trigger] spec_parse(offers[i])) is Err) by {
                        assert(forall|i: int|
                            1 <= i < offers.len() ==> spec_parse(#[trigger] offers[i]) == spec_parse(
                                tail[i - 1],
                            ));
                    }
                },
            }
        }
    }
}

} // verus!
