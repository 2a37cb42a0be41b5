//! Tokens of descriptor values: identifiers, strings, integers and commas.
use vstd::prelude::*;
use crate::declaration::location_value;
use crate::error::{CustomParseError, ParseError, error_at};
use crate::scan::{
    ident_starts, integer_at, is_digit, name_run, read_ident, read_integer, read_string, skip_ws,
    string_at, ws_end,
};

verus! {

/// One token of a descriptor value.
pub enum ValueToken {
    /// An identifier, by its span in the source.
    Ident(usize, usize),
    /// A quoted string, by its content.
    Str(Vec<char>),
    Int(i32),
    Comma,
}

/// What a token is, as plain values.
pub enum TokenView {
    Ident(int, int),
    Str(Seq<char>),
    Int(i32),
    Comma,
}

impl View for ValueToken {
    type V = TokenView;

    open spec fn view(&self) -> TokenView {
        match self {
            ValueToken::Ident(a, b) => TokenView::Ident(*a as int, *b as int),
            ValueToken::Str(v) => TokenView::Str(v@),
            ValueToken::Int(v) => TokenView::Int(*v),
            ValueToken::Comma => TokenView::Comma,
        }
    }
}

/// The views of a sequence of tokens.
pub open spec fn tokens_view(ts: Seq<ValueToken>) -> Seq<TokenView> {
    Seq::new(ts.len(), |i: int| ts[i]@)
}

/// An error reason and the position it is reported at.
pub type Failure = (CustomParseError, int);

/// The error value for a failure.
pub open spec fn failure_error(s: Seq<char>, f: Failure) -> ParseError {
    ParseError { reason: f.0, location: location_value(s, f.1) }
}

/// Whether an integer token starts with `c`, followed by `d`.
pub open spec fn integer_starts(c: char, d: Option<char>) -> bool {
    is_digit(c) || c == '+' || (c == '-' && (d matches Some(x) && is_digit(x)))
}

/// The next token in `[p, to)` after white space and comments, with its end;
/// `None` where only those remain.
pub open spec fn token_at(s: Seq<char>, p: int, to: int) -> Result<Option<(TokenView, int)>, Failure> {
    let q = ws_end(s, p);
    if q >= to {
        Ok(None)
    } else if s[q] == ',' {
        Ok(Some((TokenView::Comma, q + 1)))
    } else if s[q] == '"' || s[q] == '\'' {
        match string_at(s, q) {
            Some((t, e)) => if e > to {
                Err((CustomParseError::UnexpectedEndOfInput, to))
            } else {
                Ok(Some((TokenView::Str(t), e)))
            },
            None => Err((CustomParseError::BadString, q)),
        }
    } else if integer_starts(s[q], if q + 1 < to { Some(s[q + 1]) } else { None }) {
        match integer_at(s, q) {
            Some((v, e)) => if e > to {
                Err((CustomParseError::InvalidDescriptorValue, q))
            } else {
                Ok(Some((TokenView::Int(v as i32), e)))
            },
            None => Err((CustomParseError::InvalidDescriptorValue, q)),
        }
    } else if ident_starts(s, q) {
        if name_run(s, q) > to {
            Err((CustomParseError::InvalidDescriptorValue, q))
        } else {
            Ok(Some((TokenView::Ident(q, name_run(s, q)), name_run(s, q))))
        }
    } else {
        Err((CustomParseError::UnexpectedCharacter(s[q]), q))
    }
}

/// Reads the next token in `[p, to)`, after white space and comments; `None`
/// where only those remain.
pub fn next_value_token(s: &[char], p: usize, to: usize) -> (r: Result<
    Option<(ValueToken, usize)>,
    ParseError,
>)
    requires
        p <= to <= s@.len(),
        s@.len() < usize::MAX,
    ensures
        r matches Ok(Some((t, e))) ==> p < e <= to && (t matches ValueToken::Ident(a, b) ==> p
            <= a < b <= e),
        match token_at(s@, p as int, to as int) {
            Ok(None) => r matches Ok(None),
            Ok(Some((t, e))) => r matches Ok(Some((t2, e2))) && t2@ == t && e2 == e,
            Err(f) => r == Err::<Option<(ValueToken, usize)>, ParseError>(failure_error(s@, f)),
        },
{
    let q = skip_ws(s, p);
    if q >= to {
        return Ok(None);
    }
    let c = s[q];
    if c == ',' {
        return Ok(Some((ValueToken::Comma, q + 1)));
    }
    if c == '"' || c == '\'' {
        return match read_string(s, q) {
            Some((v, e)) => {
                if e > to {
                    Err(error_at(s, to, CustomParseError::UnexpectedEndOfInput))
                } else {
                    Ok(Some((ValueToken::Str(v), e)))
                }
            },
            None => Err(error_at(s, q, CustomParseError::BadString)),
        };
    }
    if ('0' <= c && c <= '9') || c == '+' || (c == '-' && q + 1 < to && '0' <= s[q + 1] && s[q
        + 1] <= '9') {
        return match read_integer(s, q) {
            Some((v, e)) => {
                if e > to {
                    Err(error_at(s, q, CustomParseError::InvalidDescriptorValue))
                } else {
                    Ok(Some((ValueToken::Int(v), e)))
                }
            },
            None => Err(error_at(s, q, CustomParseError::InvalidDescriptorValue)),
        };
    }
    match read_ident(s, q) {
        Some(e) => {
            if e > to {
                Err(error_at(s, q, CustomParseError::InvalidDescriptorValue))
            } else {
                Ok(Some((ValueToken::Ident(q, e), e)))
            }
        },
        None => Err(error_at(s, q, CustomParseError::UnexpectedCharacter(c))),
    }
}

/// The tokens of `[i, to)` after those in `acc`, or the first failure.
pub open spec fn tokens_from(s: Seq<char>, i: int, to: int, acc: Seq<TokenView>) -> Result<
    Seq<TokenView>,
    Failure,
>
    decreases to - i,
{
    if i >= to {
        Ok(acc)
    } else {
        match token_at(s, i, to) {
            Err(f) => Err(f),
            Ok(None) => Ok(acc),
            Ok(Some((t, e))) => if e <= i {
                // positions only move forward
                Ok(acc)
            } else {
                tokens_from(s, e, to, acc.push(t))
            },
        }
    }
}

/// The tokens of `[p, to)`, or the first failure.
pub open spec fn tokens_of(s: Seq<char>, p: int, to: int) -> Result<Seq<TokenView>, Failure> {
    tokens_from(s, p, to, Seq::empty())
}

/// Reads all tokens in `[p, to)`.
pub fn value_tokens(s: &[char], p: usize, to: usize) -> (r: Result<Vec<ValueToken>, ParseError>)
    requires
        p <= to <= s@.len(),
        s@.len() < usize::MAX,
    ensures
        r matches Ok(v) ==> forall|i: int|
            0 <= i < v@.len() ==> ((#[trigger] v@[i]) matches ValueToken::Ident(a, b) ==> p <= a
                < b <= to),
        match tokens_of(s@, p as int, to as int) {
            Ok(ts) => r matches Ok(v) && tokens_view(v@) == ts,
            Err(f) => r == Err::<Vec<ValueToken>, ParseError>(failure_error(s@, f)),
        },
{
    let mut out: Vec<ValueToken> = Vec::new();
    let mut i = p;
    assert(tokens_view(out@) =~= Seq::<TokenView>::empty());
    while i < to
        invariant
            p <= i <= to <= s@.len(),
            s@.len() < usize::MAX,
            forall|j: int|
                0 <= j < out@.len() ==> ((#[trigger] out@[j]) matches ValueToken::Ident(a, b)
                    ==> p <= a < b <= to),
            tokens_of(s@, p as int, to as int) == tokens_from(
                s@,
                i as int,
                to as int,
                tokens_view(out@),
            ),
        decreases to - i,
    {
        match next_value_token(s, i, to) {
            Err(e) => {
                return Err(e);
            },
            Ok(Some((t, e))) => {
                let ghost before = tokens_view(out@);
                out.push(t);
                assert(tokens_view(out@) =~= before.push(t@));
                i = e;
            },
            Ok(None) => {
                return Ok(out);
            },
        }
    }
    Ok(out)
}

/// The first `target` in `[i, to)` outside quoted strings and escapes, or
/// `to`; or the failure of a string on the way.
pub open spec fn unquoted_from(s: Seq<char>, i: int, to: int, target: char) -> Result<int, Failure>
    decreases to - i,
{
    if i >= to {
        Ok(to)
    } else if s[i] == target {
        Ok(i)
    } else if s[i] == '"' || s[i] == '\'' {
        match string_at(s, i) {
            Some((_, e)) => if e > to {
                Err((CustomParseError::UnexpectedEndOfInput, to))
            } else if e <= i {
                // positions only move forward
                Ok(to)
            } else {
                unquoted_from(s, e, to, target)
            },
            None => Err((CustomParseError::BadString, i)),
        }
    } else if s[i] == '\\' && i + 1 < to {
        unquoted_from(s, i + 2, to, target)
    } else {
        unquoted_from(s, i + 1, to, target)
    }
}

/// The first `target` in `[from, to)` outside quoted strings and escapes, or
/// `to` where there is none.
pub fn find_unquoted(s: &[char], from: usize, to: usize, target: char) -> (r: Result<
    usize,
    ParseError,
>)
    requires
        from <= to <= s@.len(),
        s@.len() < usize::MAX,
    ensures
        r matches Ok(e) ==> from <= e <= to && (e == to || s@[e as int] == target),
        unquoted_from(s@, from as int, to as int, target) matches Ok(e) ==> from <= e <= to,
        match unquoted_from(s@, from as int, to as int, target) {
            Ok(e) => r == Ok::<usize, ParseError>(e as usize),
            Err(f) => r == Err::<usize, ParseError>(failure_error(s@, f)),
        },
{
    let mut i = from;
    while i < to
        invariant
            from <= i <= to <= s@.len(),
            s@.len() < usize::MAX,
            unquoted_from(s@, from as int, to as int, target) == unquoted_from(
                s@,
                i as int,
                to as int,
                target,
            ),
        decreases to - i,
    {
        let c = s[i];
        if c == target {
            return Ok(i);
        } else if c == '"' || c == '\'' {
            match read_string(s, i) {
                Some((_, e)) => {
                    if e > to {
                        return Err(error_at(s, to, CustomParseError::UnexpectedEndOfInput));
                    }
                    i = e;
                },
                None => {
                    return Err(error_at(s, i, CustomParseError::BadString));
                },
            }
        } else if c == '\\' && i + 1 < to {
            i = i + 2;
        } else {
            i = i + 1;
        }
    }
    Ok(to)
}

} // verus!
