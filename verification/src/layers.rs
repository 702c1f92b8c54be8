//! The tile-serving side of the library: tile coordinates, the SQL that
//! extracts one tile's clipped, encoded geometry, and the parsing of the
//! combined row-and-extension path segment of a tile request.
use vstd::prelude::*;
use vstd::string::StrSliceExecFns;
use vstd::string::StringExecFns;

use crate::AppError;
use crate::text::all_digits;
use crate::text::count_char;
use crate::text::digit_val;
use crate::text::digits_value;
use crate::text::is_digit;
use crate::text::lemma_count_char_occurrence;
use crate::text::lemma_count_char_unique;
use crate::text::lemma_digits_value_take;

pub mod vector_tile;

verus! {

/// What a decimal parse reads: the digits, after at most one leading
/// plus sign.
pub open spec fn parse_body(s: Seq<char>) -> Seq<char> {
    if s.len() > 0 && s[0] == '+' {
        s.subrange(1, s.len() as int)
    } else {
        s
    }
}

/// The string denotes an unsigned machine integer: a non-empty digit
/// string, after at most one leading plus sign, whose value fits.
pub open spec fn usize_parse_ok(s: Seq<char>) -> bool {
    let b = parse_body(s);
    b.len() > 0 && all_digits(b) && digits_value(b) <= usize::MAX
}

/// Parses a decimal unsigned integer, accepting exactly the strings of
/// [`usize_parse_ok`].
pub fn parse_usize(s: &str) -> (r: Option<usize>)
    ensures
        r is Some <==> usize_parse_ok(s@),
        r matches Some(v) ==> v == digits_value(parse_body(s@)),
{
    let n = s.unicode_len();
    let mut start: usize = 0;
    if n > 0 && s.get_char(0) == '+' {
        start = 1;
    }
    let ghost body = parse_body(s@);
    proof {
        assert(body =~= s@.subrange(start as int, n as int));
    }
    if start >= n {
        return None;
    }
    let mut val: usize = 0;
    let mut j: usize = start;
    while j < n
        invariant
            start <= j <= n,
            n == s@.len(),
            body == parse_body(s@),
            body =~= s@.subrange(start as int, n as int),
            all_digits(s@.subrange(start as int, j as int)),
            val == digits_value(s@.subrange(start as int, j as int)),
        decreases n - j,
    {
        let c = s.get_char(j);
        let cv = c as u32;
        if cv < 48 || cv > 57 {
            proof {
                assert(body[j - start] == s@[j as int]);
                assert(!is_digit(body[j - start]));
            }
            return None;
        }
        let d = (cv - 48) as usize;
        proof {
            assert(is_digit(s@[j as int]));
            assert(d == digit_val(s@[j as int]));
            assert(s@.subrange(start as int, j as int + 1).drop_last() =~= s@.subrange(
                start as int,
                j as int,
            ));
        }
        if val > (usize::MAX - d) / 10 {
            proof {
                assert(val * 10 + d > usize::MAX) by (nonlinear_arith)
                    requires
                        val > (usize::MAX - d) / 10,
                        d <= usize::MAX,
                ;
                assert(body.take(j as int + 1 - start) =~= s@.subrange(start as int, j as int + 1));
                assert(digits_value(body.take(j as int + 1 - start)) > usize::MAX);
                lemma_digits_value_take(body, j as int + 1 - start);
            }
            return None;
        }
        proof {
            assert(val * 10 + d <= usize::MAX) by (nonlinear_arith)
                requires
                    val <= (usize::MAX - d) / 10,
                    d <= usize::MAX,
            ;
        }
        val = val * 10 + d;
        j = j + 1;
    }
    proof {
        assert(s@.subrange(start as int, n as int) =~= body);
    }
    Some(val)
}

/// The position of the sole dot of `s`.
pub open spec fn dot_index(s: Seq<char>) -> int {
    choose|i: int| 0 <= i < s.len() && s[i] == '.'
}

/// Splits the combined row-and-extension segment of a tile request path,
/// such as a row number followed by a dot and a format name, into the
/// parsed tile row and the extension text.  The segment must hold exactly
/// one dot and the row must parse.
pub fn split_y_ext(y_ext: &str) -> (r: Result<(usize, String), AppError>)
    ensures
        r is Ok <==> count_char(y_ext@, '.') == 1 && usize_parse_ok(
            y_ext@.subrange(0, dot_index(y_ext@)),
        ),
        r matches Ok(p) ==> {
            let dot = dot_index(y_ext@);
            p.0 == digits_value(parse_body(y_ext@.subrange(0, dot))) && p.1@ == y_ext@.subrange(
                dot + 1,
                y_ext@.len() as int,
            )
        },
        r matches Err(e) ==> e@ == (if count_char(y_ext@, '.') != 1 {
            "Invalid y_ext format: "@ + y_ext@
        } else {
            "Failed to parse y_str as usize"@
        }),
{
    let n = y_ext.unicode_len();
    let mut dots: usize = 0;
    let mut dot_pos: usize = 0;
    let mut i: usize = 0;
    while i < n
        invariant
            i <= n,
            dots <= i,
            n == y_ext@.len(),
            dots == count_char(y_ext@.subrange(0, i as int), '.'),
            dots > 0 ==> dot_pos < i && y_ext@[dot_pos as int] == '.',
        decreases n - i,
    {
        let c = y_ext.get_char(i);
        proof {
            assert(y_ext@.subrange(0, i as int + 1).drop_last() =~= y_ext@.subrange(0, i as int));
        }
        if c == '.' {
            if dots == 0 {
                dot_pos = i;
            }
            dots = dots + 1;
        }
        i = i + 1;
    }
    proof {
        assert(y_ext@.subrange(0, n as int) =~= y_ext@);
    }
    if dots != 1 {
        let mut msg = "Invalid y_ext format: ".to_owned();
        msg.append(y_ext);
        return Err(AppError(msg));
    }
    proof {
        lemma_count_char_occurrence(y_ext@, '.', dot_pos as int);
        lemma_count_char_unique(y_ext@, '.', dot_pos as int, dot_index(y_ext@));
    }
    let y_str = y_ext.substring_char(0, dot_pos);
    match parse_usize(y_str) {
        Some(y) => {
            let ext = y_ext.substring_char(dot_pos + 1, n).to_owned();
            Ok((y, ext))
        },
        None => Err(AppError::new("Failed to parse y_str as usize")),
    }
}

/// The one tile format this library serves.
pub fn supported_layer_extension(ext: &String) -> (r: bool)
    ensures
        r == (ext@ == "mvt"@),
{
    let mvt = "mvt".to_owned();
    ext.eq(&mvt)
}

} // verus!
