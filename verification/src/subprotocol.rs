//! The structured subprotocol identifier: a `{version, flavour}` pair with a
//! dotted textual token form, parsed and formatted exactly.

use vstd::prelude::*;
use vstd::string::*;

use crate::schema::PROTOCOL_VERSION;
use crate::text::{
    all_digit_chars, count_char, digits_val, find_char, find_char_from, is_digit_char,
    lemma_count_char_step, lemma_decimal_digits_val, lemma_find_char_at, no_char,
    parse_u16_digits, push_decimal, spec_decimal, str_range_eq,
};

verus! {

/// The wire-format flavour a connection speaks.
#[derive(Debug, Clone, Copy, PartialEq, Eq, Structural)]
pub enum BlimpSubprotocolFlavour {
    Json,
    Postcard,
}

/// Why a candidate subprotocol token was refused.
#[derive(Debug, Clone, Copy, PartialEq, Eq, Structural)]
pub enum SubprotocolValidationError {
    InvalidProtocol,
    IncompatibleVersion,
    UnsupportedFlavour,
}

/// A negotiated subprotocol: protocol version plus wire-format flavour.
#[derive(Debug, Clone, Copy, PartialEq, Eq, Structural)]
pub struct BlimpSubprotocol {
    pub version: u16,
    pub flavour: BlimpSubprotocolFlavour,
}

/// Organization segment of every token.
pub open spec fn spec_org() -> Seq<char> {
    seq!['s', 'p', 'a', 'c', 'e', 'c', 'o', 'f', 'f', 'e', 'e']
}

/// Project segment of every token.
pub open spec fn spec_project() -> Seq<char> {
    seq!['b', 'l', 'i', 'm', 'p']
}

/// Registered name of each wire-format flavour.
pub open spec fn spec_flavour_name(f: BlimpSubprotocolFlavour) -> Seq<char> {
    match f {
        BlimpSubprotocolFlavour::Json => seq!['j', 's', 'o', 'n'],
        BlimpSubprotocolFlavour::Postcard => seq!['p', 'o', 's', 't', 'c', 'a', 'r', 'd'],
    }
}

/// Whether this build supports the given protocol version.
pub open spec fn spec_version_supported(v: u16) -> bool {
    v == PROTOCOL_VERSION
}

/// Whether a segment reads `v<digits>` with a value that fits 16 bits.
pub open spec fn is_version_segment(s: Seq<char>) -> bool {
    s.len() >= 2 && s[0] == 'v' && all_digit_chars(s.skip(1)) && digits_val(s.skip(1))
        <= u16::MAX as nat
}

/// The numeric version of a well-formed version segment.
pub open spec fn segment_version(s: Seq<char>) -> u16 {
    digits_val(s.skip(1)) as u16
}

/// What parsing a token yields: the token must consist of exactly four
/// dot-separated segments `org.project.v<digits>.<flavour>`; the organization
/// and project must match this build's constants; the version must be
/// well-formed and supported; the flavour must be registered.
pub open spec fn spec_parse(s: Seq<char>) -> Result<BlimpSubprotocol, SubprotocolValidationError> {
    if count_char(s, 0, '.') != 3 {
        Err(SubprotocolValidationError::InvalidProtocol)
    } else {
        let d0 = find_char(s, 0, '.');
        let d1 = find_char(s, d0 + 1, '.');
        let d2 = find_char(s, d1 + 1, '.');
        if s.subrange(0, d0) != spec_org() || s.subrange(d0 + 1, d1) != spec_project() {
            Err(SubprotocolValidationError::InvalidProtocol)
        } else if !is_version_segment(s.subrange(d1 + 1, d2)) {
            Err(SubprotocolValidationError::InvalidProtocol)
        } else if !spec_version_supported(segment_version(s.subrange(d1 + 1, d2))) {
            Err(SubprotocolValidationError::IncompatibleVersion)
        } else if s.subrange(d2 + 1, s.len() as int) == spec_flavour_name(
            BlimpSubprotocolFlavour::Json,
        ) {
            Ok(
                BlimpSubprotocol {
                    version: segment_version(s.subrange(d1 + 1, d2)),
                    flavour: BlimpSubprotocolFlavour::Json,
                },
            )
        } else if s.subrange(d2 + 1, s.len() as int) == spec_flavour_name(
            BlimpSubprotocolFlavour::Postcard,
        ) {
            Ok(
                BlimpSubprotocol {
                    version: segment_version(s.subrange(d1 + 1, d2)),
                    flavour: BlimpSubprotocolFlavour::Postcard,
                },
            )
        } else {
            Err(SubprotocolValidationError::UnsupportedFlavour)
        }
    }
}

/// The canonical token of a subprotocol:
/// `org.project.v<version>.<flavour>`.
pub open spec fn spec_token(p: BlimpSubprotocol) -> Seq<char> {
    spec_org() + seq!['.'] + spec_project() + seq!['.'] + seq!['v'] + spec_decimal(
        p.version as nat,
    ) + seq!['.'] + spec_flavour_name(p.flavour)
}

proof fn lemma_literals()
    ensures
        "spacecoffee"@ == spec_org(),
        "blimp"@ == spec_project(),
        "json"@ == spec_flavour_name(BlimpSubprotocolFlavour::Json),
        "postcard"@ == spec_flavour_name(BlimpSubprotocolFlavour::Postcard),
{
    reveal_strlit("spacecoffee");
    reveal_strlit("blimp");
    reveal_strlit("json");
    reveal_strlit("postcard");
    assert("spacecoffee"@ =~= spec_org());
    assert("blimp"@ =~= spec_project());
    assert("json"@ =~= spec_flavour_name(BlimpSubprotocolFlavour::Json));
    assert("postcard"@ =~= spec_flavour_name(BlimpSubprotocolFlavour::Postcard));
}

impl Default for BlimpSubprotocol {
    /// The subprotocol offered when the caller states no preference: the
    /// current version with the compact binary flavour.
    fn default() -> (r: Self)
        ensures
            r.version == PROTOCOL_VERSION,
            r.flavour == BlimpSubprotocolFlavour::Postcard,
    {
        BlimpSubprotocol { version: PROTOCOL_VERSION, flavour: BlimpSubprotocolFlavour::Postcard }
    }
}

impl BlimpSubprotocol {
    /// Parses a dotted token into a subprotocol, reporting exactly why an
    /// unacceptable token is refused.
    pub fn from_str(s: &str) -> (r: Result<Self, SubprotocolValidationError>)
        ensures
            r == spec_parse(s@),
    {
        let ghost sv = s@;
        let len = s.unicode_len();
        let d0 = find_char_from(s, 0, '.');
        proof {
            lemma_count_char_step(sv, 0, '.');
        }
        if d0 == len {
            return Err(SubprotocolValidationError::InvalidProtocol);
        }
        let d1 = find_char_from(s, d0 + 1, '.');
        proof {
            lemma_count_char_step(sv, d0 + 1, '.');
        }
        if d1 == len {
            return Err(SubprotocolValidationError::InvalidProtocol);
        }
        let d2 = find_char_from(s, d1 + 1, '.');
        proof {
            lemma_count_char_step(sv, d1 + 1, '.');
        }
        if d2 == len {
            return Err(SubprotocolValidationError::InvalidProtocol);
        }
        let d3 = find_char_from(s, d2 + 1, '.');
        proof {
            lemma_count_char_step(sv, d2 + 1, '.');
        }
        if d3 != len {
            return Err(SubprotocolValidationError::InvalidProtocol);
        }
        proof {
            lemma_literals();
        }
        let org_ok = str_range_eq(s, 0, d0, "spacecoffee");
        let project_ok = str_range_eq(s, d0 + 1, d1, "blimp");
        if !(org_ok && project_ok) {
            return Err(SubprotocolValidationError::InvalidProtocol);
        }
        let ghost vseg = sv.subrange(d1 + 1, d2 as int);
        if d2 - (d1 + 1) < 2 {
            return Err(SubprotocolValidationError::InvalidProtocol);
        }
        if s.get_char(d1 + 1) != 'v' {
            return Err(SubprotocolValidationError::InvalidProtocol);
        }
        proof {
            assert(vseg.skip(1) =~= sv.subrange(d1 + 2, d2 as int));
            assert(vseg[0] == sv[d1 + 1]);
        }
        let version = match parse_u16_digits(s, d1 + 2, d2) {
            Some(v) => v,
            None => {
                return Err(SubprotocolValidationError::InvalidProtocol);
            },
        };
        if version != PROTOCOL_VERSION {
            return Err(SubprotocolValidationError::IncompatibleVersion);
        }
        if str_range_eq(s, d2 + 1, len, "json") {
            Ok(BlimpSubprotocol { version, flavour: BlimpSubprotocolFlavour::Json })
        } else if str_range_eq(s, d2 + 1, len, "postcard") {
            Ok(BlimpSubprotocol { version, flavour: BlimpSubprotocolFlavour::Postcard })
        } else {
            Err(SubprotocolValidationError::UnsupportedFlavour)
        }
    }

    /// Formats the canonical token of this subprotocol.
    pub fn to_string(&self) -> (r: String)
        ensures
            r@ == spec_token(*self),
    {
        let mut out = String::from_str("spacecoffee.blimp.v");
        push_decimal(&mut out, self.version);
        out.append(".");
        match self.flavour {
            BlimpSubprotocolFlavour::Json => out.append("json"),
            BlimpSubprotocolFlavour::Postcard => out.append("postcard"),
        }
        proof {
            reveal_strlit("spacecoffee.blimp.v");
            reveal_strlit(".");
            lemma_literals();
            assert("spacecoffee.blimp.v"@ =~= spec_org() + seq!['.'] + spec_project() + seq!['.']
                + seq!['v']);
            assert("."@ =~= seq!['.']);
            assert(out@ =~= spec_token(*self));
        }
        out
    }
}

/// Parsing a token assembled from four dot-free segments sees exactly those
/// segments.
proof fn lemma_parse_of_token_shape(a: Seq<char>, b: Seq<char>, c: Seq<char>, d: Seq<char>)
    requires
        no_char(a, '.'),
        no_char(b, '.'),
        no_char(c, '.'),
        no_char(d, '.'),
    ensures
        ({
            let t = a + seq!['.'] + b + seq!['.'] + c + seq!['.'] + d;
            let la = a.len() as int;
            let lb = b.len() as int;
            let lc = c.len() as int;
            &&& count_char(t, 0, '.') == 3
            &&& find_char(t, 0, '.') == la
            &&& find_char(t, la + 1, '.') == la + 1 + lb
            &&& find_char(t, la + lb + 2, '.') == la + lb + 2 + lc
            &&& t.subrange(0, la) == a
            &&& t.subrange(la + 1, la + 1 + lb) == b
            &&& t.subrange(la + lb + 2, la + lb + 2 + lc) == c
            &&& t.subrange(la + lb + lc + 3, t.len() as int) == d
        }),
{
    let t = a + seq!['.'] + b + seq!['.'] + c + seq!['.'] + d;
    let la = a.len() as int;
    let lb = b.len() as int;
    let lc = c.len() as int;
    let ld = d.len() as int;
    assert(t.len() == la + lb + lc + ld + 3);
    assert(t.subrange(0, la) =~= a);
    assert(t.subrange(la + 1, la + 1 + lb) =~= b);
    assert(t.subrange(la + lb + 2, la + lb + 2 + lc) =~= c);
    assert(t.subrange(la + lb + lc + 3, t.len() as int) =~= d);
    assert(t[la] == '.');
    assert(t[la + 1 + lb] == '.');
    assert(t[la + lb + 2 + lc] == '.');
    assert forall|j: int| 0 <= j < la implies t[j] != '.' by {
        assert(t[j] == a[j]);
    }
    assert forall|j: int| la + 1 <= j < la + 1 + lb implies t[j] != '.' by {
        assert(t[j] == b[j - la - 1]);
    }
    assert forall|j: int| la + lb + 2 <= j < la + lb + 2 + lc implies t[j] != '.' by {
        assert(t[j] == c[j - la - lb - 2]);
    }
    assert forall|j: int| la + lb + lc + 3 <= j < t.len() implies t[j] != '.' by {
        assert(t[j] == d[j - la - lb - lc - 3]);
    }
    lemma_find_char_at(t, 0, la, '.');
    lemma_find_char_at(t, la + 1, la + 1 + lb, '.');
    lemma_find_char_at(t, la + lb + 2, la + lb + 2 + lc, '.');
    lemma_find_char_at(t, la + lb + lc + 3, t.len() as int, '.');
    lemma_count_char_step(t, 0, '.');
    lemma_count_char_step(t, la + 1, '.');
    lemma_count_char_step(t, la + lb + 2, '.');
    lemma_count_char_step(t, la + lb + lc + 3, '.');
}

/// What parsing a canonical token yields: the subprotocol itself when its
/// version is supported, and a version rejection otherwise.
proof fn lemma_token_parses(p: BlimpSubprotocol)
    ensures
        spec_parse(spec_token(p)) == if spec_version_supported(p.version) {
            Ok::<BlimpSubprotocol, SubprotocolValidationError>(p)
        } else {
            Err::<BlimpSubprotocol, SubprotocolValidationError>(
                SubprotocolValidationError::IncompatibleVersion,
            )
        },
{
    lemma_decimal_digits_val(p.version as nat);
    let dec = spec_decimal(p.version as nat);
    let vseg = seq!['v'] + dec;
    let flav = spec_flavour_name(p.flavour);
    assert(no_char(vseg, '.')) by {
        assert forall|i: int| 0 <= i < vseg.len() implies vseg[i] != '.' by {
            if i > 0 {
                assert(is_digit_char(dec[i - 1]));
            }
        }
    }
    lemma_parse_of_token_shape(spec_org(), spec_project(), vseg, flav);
    let t = spec_org() + seq!['.'] + spec_project() + seq!['.'] + vseg + seq!['.'] + flav;
    assert(spec_token(p) =~= t);
    assert(vseg.skip(1) =~= dec);
    assert(is_version_segment(vseg));
    assert(segment_version(vseg) == p.version);
    let la = spec_org().len() as int;
    let lb = spec_project().len() as int;
    let lc = vseg.len() as int;
    assert(spec_flavour_name(BlimpSubprotocolFlavour::Json).len() == 4);
    assert(spec_flavour_name(BlimpSubprotocolFlavour::Postcard).len() == 8);
    if spec_version_supported(p.version) {
        match p.flavour {
            BlimpSubprotocolFlavour::Json => {
                assert(spec_parse(t) == Ok::<BlimpSubprotocol, SubprotocolValidationError>(p));
            },
            BlimpSubprotocolFlavour::Postcard => {
                assert(t.subrange(la + lb + lc + 3, t.len() as int) != spec_flavour_name(
                    BlimpSubprotocolFlavour::Json,
                ));
                assert(spec_parse(t) == Ok::<BlimpSubprotocol, SubprotocolValidationError>(p));
            },
        }
    }
}

/// Round trip: the canonical token of any supported subprotocol parses back
/// to exactly that subprotocol.
pub proof fn lemma_format_parse_round_trip(p: BlimpSubprotocol)
    requires
        spec_version_supported(p.version),
    ensures
        spec_parse(spec_token(p)) == Ok::<BlimpSubprotocol, SubprotocolValidationError>(p),
{
    lemma_token_parses(p);
}

/// A token without exactly four dot-separated segments is refused as invalid,
/// whatever else it holds.
pub proof fn lemma_parse_rejects_wrong_segment_count(s: Seq<char>)
    requires
        count_char(s, 0, '.') != 3,
    ensures
        spec_parse(s) == Err::<BlimpSubprotocol, SubprotocolValidationError>(
            SubprotocolValidationError::InvalidProtocol,
        ),
{
}

/// An otherwise well-formed token whose version this build does not support
/// is refused as incompatible, not invalid.
pub proof fn lemma_parse_rejects_incompatible_version(p: BlimpSubprotocol)
    requires
        !spec_version_supported(p.version),
    ensures
        spec_parse(spec_token(p)) == Err::<BlimpSubprotocol, SubprotocolValidationError>(
            SubprotocolValidationError::IncompatibleVersion,
        ),
{
    lemma_token_parses(p);
}

/// A well-formed supported token whose flavour segment names no registered
/// flavour is refused as unsupported.
pub proof fn lemma_parse_rejects_unsupported_flavour(v: u16, flav: Seq<char>)
    requires
        spec_version_supported(v),
        no_char(flav, '.'),
        flav != spec_flavour_name(BlimpSubprotocolFlavour::Json),
        flav != spec_flavour_name(BlimpSubprotocolFlavour::Postcard),
    ensures
        spec_parse(
            spec_org() + seq!['.'] + spec_project() + seq!['.'] + seq!['v'] + spec_decimal(
                v as nat,
            ) + seq!['.'] + flav,
        ) == Err::<BlimpSubprotocol, SubprotocolValidationError>(
            SubprotocolValidationError::UnsupportedFlavour,
        ),
{
    lemma_decimal_digits_val(v as nat);
    let dec = spec_decimal(v as nat);
    let vseg = seq!['v'] + dec;
    assert(no_char(vseg, '.')) by {
        assert forall|i: int| 0 <= i < vseg.len() implies vseg[i] != '.' by {
            if i > 0 {
                assert(is_digit_char(dec[i - 1]));
            }
        }
    }
    lemma_parse_of_token_shape(spec_org(), spec_project(), vseg, flav);
    let t = spec_org() + seq!['.'] + spec_project() + seq!['.'] + vseg + seq!['.'] + flav;
    assert(spec_org() + seq!['.'] + spec_project() + seq!['.'] + seq!['v'] + dec + seq!['.'] + flav
        =~= t);
    assert(vseg.skip(1) =~= dec);
    assert(is_version_segment(vseg));
    assert(segment_version(vseg) == v);
}

} // verus!
