//! The argument binder.
//!
//! A command's parameters are described by an ordered list of argument
//! descriptors: a display name, a declared type, and a 0-based position.
//! Binding converts the residual tokens into typed values in order and
//! fails fast on the first missing or unparsable argument; a failure
//! discards every value already parsed.  Extra tokens beyond the last
//! descriptor are simply not consumed.

use vstd::prelude::*;
use vstd::string::*;

use crate::error::BindError;
use crate::error::MissingArgumentError;
use crate::error::WrongArgumentError;

verus! {

/// The declared type of one command argument.
#[derive(Clone, Copy, Debug, PartialEq, Eq, Structural)]
pub enum ArgType {
    /// A signed 64-bit integer, written in decimal.
    Integer,
    /// The token itself, unparsed.
    Text,
    /// `true` or `false`, written literally.
    Boolean,
}

/// One typed argument value produced by binding.
#[derive(Debug)]
pub enum ArgValue {
    Integer(i64),
    Text(String),
    Boolean(bool),
}

/// A positional binding instruction: bind the token at `position` to a
/// value of type `ty` under the display name `name`.  Positions of a
/// descriptor list are a contiguous 0-based sequence in declaration
/// order.
#[derive(Debug)]
pub struct ArgDescriptor {
    /// The display name of the argument.
    pub name: String,
    /// The declared type of the argument.
    pub ty: ArgType,
    /// The 0-based position of the argument among the residual tokens.
    pub position: usize,
}

/// Why a token failed to parse as an integer.
#[derive(Clone, Copy, Debug, PartialEq, Eq, Structural)]
pub enum IntParseError {
    /// The token was empty.
    Empty,
    /// A character was not a decimal digit, or a sign stood alone.
    InvalidDigit,
    /// The value does not fit in a signed 64-bit integer.
    OutOfRange,
}

/// A decimal digit.
pub open spec fn is_digit(c: char) -> bool {
    48 <= c as int && c as int <= 57
}

/// The value of a decimal digit.
pub open spec fn digit_value(c: char) -> int {
    c as int - 48
}

/// Scan decimal digits left to right, accumulating their value: the
/// first problem wins, and a value above `bound` is out of range.
pub open spec fn scan_digits(d: Seq<char>, acc: int, bound: int) -> Result<int, IntParseError>
    decreases d.len(),
{
    if d.len() == 0 {
        Ok(acc)
    } else if !is_digit(d[0]) {
        Err(IntParseError::InvalidDigit)
    } else if acc * 10 + digit_value(d[0]) > bound {
        Err(IntParseError::OutOfRange)
    } else {
        scan_digits(d.drop_first(), acc * 10 + digit_value(d[0]), bound)
    }
}

/// What parsing a token as a signed 64-bit decimal integer yields: an
/// optional sign, then one or more digits, with the value in range.
pub open spec fn spec_parse_i64(s: Seq<char>) -> Result<int, IntParseError> {
    if s.len() == 0 {
        Err(IntParseError::Empty)
    } else {
        let neg = s[0] == '-';
        let signed = s[0] == '-' || s[0] == '+';
        let d = if signed {
            s.drop_first()
        } else {
            s
        };
        if d.len() == 0 {
            Err(IntParseError::InvalidDigit)
        } else {
            let bound: int = if neg {
                0x8000_0000_0000_0000
            } else {
                0x7fff_ffff_ffff_ffff
            };
            match scan_digits(d, 0, bound) {
                Ok(v) => Ok(
                    if neg {
                        -v
                    } else {
                        v
                    },
                ),
                Err(e) => Err(e),
            }
        }
    }
}

/// Parse a token as a signed 64-bit decimal integer.
pub fn parse_i64(s: &str) -> (r: Result<i64, IntParseError>)
    ensures
        match r {
            Ok(v) => spec_parse_i64(s@) == Ok::<int, IntParseError>(v as int),
            Err(e) => spec_parse_i64(s@) == Err::<int, IntParseError>(e),
        },
{
    let n = s.unicode_len();
    if n == 0 {
        return Err(IntParseError::Empty);
    }
    let c0 = s.get_char(0);
    let neg = c0 == '-';
    let signed = neg || c0 == '+';
    let start: usize = if signed {
        1
    } else {
        0
    };
    if start == n {
        return Err(IntParseError::InvalidDigit);
    }
    let bound: u64 = if neg {
        9223372036854775808
    } else {
        9223372036854775807
    };
    let ghost d = if signed {
        s@.drop_first()
    } else {
        s@
    };
    let mut acc: u64 = 0;
    let mut i: usize = start;
    proof {
        assert(d =~= s@.subrange(start as int, n as int));
        assert(d.skip(0) =~= d);
    }
    while i < n
        invariant
            start <= i <= n,
            n == s@.len(),
            n > 0,
            neg == (s@[0] == '-'),
            signed == (s@[0] == '-' || s@[0] == '+'),
            start == if signed {
                1int
            } else {
                0int
            },
            start < n,
            d == if signed {
                s@.drop_first()
            } else {
                s@
            },
            d == s@.subrange(start as int, n as int),
            acc <= bound,
            bound == if neg {
                0x8000_0000_0000_0000u64
            } else {
                0x7fff_ffff_ffff_ffffu64
            },
            scan_digits(d, 0, bound as int) == scan_digits(
                d.skip(i - start),
                acc as int,
                bound as int,
            ),
        decreases n - i,
    {
        let c = s.get_char(i);
        let cv = c as u32;
        let ghost rest = d.skip(i - start);
        proof {
            assert(rest.len() == n - i);
            assert(rest[0] == s@[i as int]);
            assert(c as int == cv as int);
        }
        if cv < 48 || cv > 57 {
            proof {
                assert(!is_digit(rest[0]));
                assert(scan_digits(rest, acc as int, bound as int) == Err::<int, IntParseError>(
                    IntParseError::InvalidDigit,
                ));
                assert(scan_digits(d, 0, bound as int) == Err::<int, IntParseError>(
                    IntParseError::InvalidDigit,
                ));
                assert(d.len() > 0);
                assert(spec_parse_i64(s@) == Err::<int, IntParseError>(
                    IntParseError::InvalidDigit,
                ));
            }
            return Err(IntParseError::InvalidDigit);
        }
        let dv: u64 = (cv - 48) as u64;
        if acc > (bound - dv) / 10 {
            proof {
                assert(acc as int * 10 + dv as int > bound as int) by (nonlinear_arith)
                    requires
                        acc as int > (bound as int - dv as int) / 10,
                        0 <= dv as int <= 9,
                        0 <= bound as int,
                ;
                assert(is_digit(rest[0]) && digit_value(rest[0]) == dv as int);
                assert(scan_digits(rest, acc as int, bound as int) == Err::<int, IntParseError>(
                    IntParseError::OutOfRange,
                ));
            }
            return Err(IntParseError::OutOfRange);
        }
        proof {
            assert(acc as int * 10 + dv as int <= bound as int) by (nonlinear_arith)
                requires
                    acc as int <= (bound as int - dv as int) / 10,
                    0 <= dv as int <= 9,
                    dv as int <= bound as int,
            ;
        }
        acc = acc * 10 + dv;
        i += 1;
        proof {
            assert(rest.drop_first() =~= d.skip(i - start));
        }
    }
    proof {
        assert(d.skip(n - start).len() == 0);
    }
    if neg {
        if acc == 9223372036854775808 {
            Ok(i64::MIN)
        } else {
            Ok(-(acc as i64))
        }
    } else {
        Ok(acc as i64)
    }
}

/// What parsing a token as a boolean yields: the literal words `true`
/// and `false` only.
pub open spec fn spec_parse_bool(tok: Seq<char>) -> Option<bool> {
    if tok == "true"@ {
        Some(true)
    } else if tok == "false"@ {
        Some(false)
    } else {
        None
    }
}

/// Parse a token as a boolean.
pub fn parse_bool(tok: &String) -> (r: Option<bool>)
    ensures
        r == spec_parse_bool(tok@),
{
    let t = String::from_str("true");
    if tok.eq(&t) {
        return Some(true);
    }
    let f = String::from_str("false");
    if tok.eq(&f) {
        return Some(false);
    }
    None
}

/// The display name of a declared type.
pub open spec fn spec_type_name(t: ArgType) -> Seq<char> {
    match t {
        ArgType::Integer => "i64"@,
        ArgType::Text => "String"@,
        ArgType::Boolean => "bool"@,
    }
}

/// The display name of a declared type, as carried by binding errors.
pub fn type_label(t: &ArgType) -> (r: String)
    ensures
        r@ == spec_type_name(*t),
{
    match t {
        ArgType::Integer => String::from_str("i64"),
        ArgType::Text => String::from_str("String"),
        ArgType::Boolean => String::from_str("bool"),
    }
}

/// Whether a token parses as the declared type.
pub open spec fn spec_parses(t: ArgType, tok: Seq<char>) -> bool {
    match t {
        ArgType::Integer => spec_parse_i64(tok) is Ok,
        ArgType::Text => true,
        ArgType::Boolean => spec_parse_bool(tok) is Some,
    }
}

/// The diagnostic text for an integer parse failure.
pub open spec fn spec_int_error_message(e: IntParseError) -> Seq<char> {
    match e {
        IntParseError::Empty => "cannot parse integer from empty string"@,
        IntParseError::InvalidDigit => "invalid digit found in string"@,
        IntParseError::OutOfRange => "number out of range for the target type"@,
    }
}

impl IntParseError {
    /// The failure rendered as text, for diagnostics.
    pub fn message(&self) -> (r: String)
        ensures
            r@ == spec_int_error_message(*self),
    {
        match self {
            IntParseError::Empty => String::from_str("cannot parse integer from empty string"),
            IntParseError::InvalidDigit => String::from_str("invalid digit found in string"),
            IntParseError::OutOfRange => String::from_str(
                "number out of range for the target type",
            ),
        }
    }
}

/// The diagnostic text for a token that fails to parse as the declared
/// type.
pub open spec fn spec_parse_failure(t: ArgType, tok: Seq<char>) -> Seq<char> {
    match t {
        ArgType::Integer => match spec_parse_i64(tok) {
            Err(e) => spec_int_error_message(e),
            Ok(_) => Seq::empty(),
        },
        ArgType::Text => Seq::empty(),
        ArgType::Boolean => "expected 'true' or 'false'"@,
    }
}

/// A bound value is the declared type's parse of the token.
pub open spec fn arg_value_matches(v: ArgValue, t: ArgType, tok: Seq<char>) -> bool {
    match t {
        ArgType::Integer => v matches ArgValue::Integer(n) && spec_parse_i64(tok) == Ok::<
            int,
            IntParseError,
        >(n as int),
        ArgType::Text => v matches ArgValue::Text(s) && s@ == tok,
        ArgType::Boolean => v matches ArgValue::Boolean(b) && spec_parse_bool(tok) == Some(b),
    }
}

/// Binding fails at position `j` when the token is missing or does not
/// parse as the declared type.
pub open spec fn fails_at(descs: Seq<ArgDescriptor>, toks: Seq<Seq<char>>, j: int) -> bool {
    toks.len() <= j || !spec_parses(descs[j].ty, toks[j])
}

/// The first position at which binding fails, if any.
pub open spec fn spec_first_fail(descs: Seq<ArgDescriptor>, toks: Seq<Seq<char>>) -> Option<int>
    decreases descs.len(),
{
    if descs.len() == 0 {
        None
    } else if toks.len() == 0 || !spec_parses(descs[0].ty, toks[0]) {
        Some(0int)
    } else {
        match spec_first_fail(descs.drop_first(), toks.drop_first()) {
            Some(k) => Some(k + 1),
            None => None,
        }
    }
}

/// `spec_first_fail` returns exactly the first failing position.
pub proof fn lemma_first_fail(descs: Seq<ArgDescriptor>, toks: Seq<Seq<char>>)
    ensures
        match spec_first_fail(descs, toks) {
            Some(k) => 0 <= k < descs.len() && fails_at(descs, toks, k) && forall|j: int|
                0 <= j < k ==> !fails_at(descs, toks, j),
            None => forall|j: int| 0 <= j < descs.len() ==> !fails_at(descs, toks, j),
        },
    decreases descs.len(),
{
    if descs.len() > 0 && toks.len() > 0 && spec_parses(descs[0].ty, toks[0]) {
        let dd = descs.drop_first();
        let dt = toks.drop_first();
        lemma_first_fail(dd, dt);
        assert forall|j: int| 1 <= j < descs.len() implies fails_at(descs, toks, j) == fails_at(
            dd,
            dt,
            j - 1,
        ) by {
            assert(dd[j - 1] == descs[j]);
            if j < toks.len() {
                assert(dt[j - 1] == toks[j]);
            }
        }
    }
}

/// Descriptor positions are the contiguous 0-based declaration order.
pub open spec fn descs_wf(descs: Seq<ArgDescriptor>) -> bool {
    forall|i: int| 0 <= i < descs.len() ==> #[trigger] descs[i].position == i
}

/// Bind the tokens to the descriptors in order.  Binding is
/// all-or-nothing: it fails fast at the first missing or unparsable
/// argument, reporting its name, position and declared type, and
/// discards any values already parsed.  Extra tokens beyond the last
/// descriptor are not consumed.
pub fn bind(descriptors: &Vec<ArgDescriptor>, tokens: &[String]) -> (r: Result<
    Vec<ArgValue>,
    BindError,
>)
    requires
        descs_wf(descriptors@),
    ensures
        ({
            let descs = descriptors@;
            let toks = tokens.deep_view();
            match r {
                Ok(vals) => spec_first_fail(descs, toks) is None && vals@.len() == descs.len()
                    && forall|i: int|
                    0 <= i < descs.len() ==> arg_value_matches(
                        #[trigger] vals@[i],
                        descs[i].ty,
                        toks[i],
                    ),
                Err(BindError::Missing(m)) => {
                    &&& spec_first_fail(descs, toks) == Some(m.position as int)
                    &&& toks.len() <= m.position < descs.len()
                    &&& m.name@ == descs[m.position as int].name@
                    &&& m.ty@ == spec_type_name(descs[m.position as int].ty)
                },
                Err(BindError::Wrong(w)) => {
                    &&& spec_first_fail(descs, toks) == Some(w.position as int)
                    &&& w.position < descs.len()
                    &&& w.position < toks.len()
                    &&& !spec_parses(descs[w.position as int].ty, toks[w.position as int])
                    &&& w.name@ == descs[w.position as int].name@
                    &&& w.ty@ == spec_type_name(descs[w.position as int].ty)
                    &&& w.inner@ == spec_parse_failure(
                        descs[w.position as int].ty,
                        toks[w.position as int],
                    )
                },
            }
        }),
{
    proof {
        lemma_first_fail(descriptors@, tokens.deep_view());
    }
    let n = descriptors.len();
    let mut vals: Vec<ArgValue> = Vec::new();
    let mut i: usize = 0;
    while i < n
        invariant
            i <= n,
            n == descriptors@.len(),
            vals@.len() == i,
            forall|j: int| 0 <= j < i ==> !fails_at(descriptors@, tokens.deep_view(), j),
            forall|j: int|
                0 <= j < i ==> arg_value_matches(
                    #[trigger] vals@[j],
                    descriptors@[j].ty,
                    tokens.deep_view()[j],
                ),
            match spec_first_fail(descriptors@, tokens.deep_view()) {
                Some(k) => 0 <= k < descriptors@.len() && fails_at(
                    descriptors@,
                    tokens.deep_view(),
                    k,
                ) && forall|j: int| 0 <= j < k ==> !fails_at(descriptors@, tokens.deep_view(), j),
                None => forall|j: int|
                    0 <= j < descriptors@.len() ==> !fails_at(descriptors@, tokens.deep_view(), j),
            },
        decreases n - i,
    {
        let desc = &descriptors[i];
        if i >= tokens.len() {
            proof {
                assert(tokens.deep_view().len() == tokens@.len());
                assert(fails_at(descriptors@, tokens.deep_view(), i as int));
                assert(spec_first_fail(descriptors@, tokens.deep_view()) == Some(i as int));
            }
            return Err(
                BindError::Missing(
                    MissingArgumentError {
                        name: desc.name.clone(),
                        position: i,
                        ty: type_label(&desc.ty),
                    },
                ),
            );
        }
        let tok = &tokens[i];
        proof {
            assert(tokens.deep_view()[i as int] == tokens@[i as int]@);
        }
        match &desc.ty {
            ArgType::Integer => {
                match parse_i64(tok.as_str()) {
                    Ok(v) => vals.push(ArgValue::Integer(v)),
                    Err(e) => {
                        proof {
                            assert(!spec_parses(descriptors@[i as int].ty, tokens.deep_view()[
                                i as int
                            ]));
                            assert(fails_at(descriptors@, tokens.deep_view(), i as int));
                            assert(spec_first_fail(descriptors@, tokens.deep_view()) == Some(
                                i as int,
                            ));
                        }
                        return Err(
                            BindError::Wrong(
                                WrongArgumentError {
                                    name: desc.name.clone(),
                                    position: i,
                                    ty: type_label(&desc.ty),
                                    inner: e.message(),
                                },
                            ),
                        );
                    },
                }
            },
            ArgType::Text => {
                vals.push(ArgValue::Text(tok.clone()));
            },
            ArgType::Boolean => {
                match parse_bool(tok) {
                    Some(b) => vals.push(ArgValue::Boolean(b)),
                    None => {
                        proof {
                            assert(!spec_parses(descriptors@[i as int].ty, tokens.deep_view()[
                                i as int
                            ]));
                            assert(fails_at(descriptors@, tokens.deep_view(), i as int));
                            assert(spec_first_fail(descriptors@, tokens.deep_view()) == Some(
                                i as int,
                            ));
                        }
                        return Err(
                            BindError::Wrong(
                                WrongArgumentError {
                                    name: desc.name.clone(),
                                    position: i,
                                    ty: type_label(&desc.ty),
                                    inner: String::from_str("expected 'true' or 'false'"),
                                },
                            ),
                        );
                    },
                }
            },
        }
        i += 1;
    }
    proof {
        assert(spec_first_fail(descriptors@, tokens.deep_view()) is None);
    }
    Ok(vals)
}

} // verus!
