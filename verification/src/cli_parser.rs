//! Typed argument parsing: a trait that turns the collected string values
//! of one key into a typed value, with implementations for strings,
//! numbers, booleans and lists, and the typed-argument carrier built on it.

use vstd::prelude::*;
use vstd::string::*;

use crate::args_map::ArgumentMap;
use crate::text::str_eq;

verus! {

/// Whether `c` is one of the ten ASCII digits.
pub open spec fn is_ascii_digit(c: char) -> bool {
    48 <= c as int && c as int <= 57
}

/// The numeric value of one ASCII digit.
pub open spec fn digit_value(c: char) -> int {
    c as int - 48
}

/// Whether every character of `s` is an ASCII digit.
pub open spec fn all_ascii_digits(s: Seq<char>) -> bool {
    forall|i: int| 0 <= i < s.len() ==> is_ascii_digit(#[trigger] s[i])
}

/// The number that a digit string denotes, most significant digit first.
pub open spec fn digits_value(s: Seq<char>) -> int
    decreases s.len(),
{
    if s.len() == 0 {
        0
    } else {
        digits_value(s.drop_last()) * 10 + digit_value(s.last())
    }
}

/// The number a whole token denotes: an optional leading plus sign, then
/// one or more ASCII digits whose value fits in 32 bits; anything else
/// denotes nothing.
pub open spec fn spec_parse_u32(s: Seq<char>) -> Option<u32> {
    let digits = if s.len() > 0 && s[0] == '+' {
        s.skip(1)
    } else {
        s
    };
    if digits.len() > 0 && all_ascii_digits(digits) && digits_value(digits) < 0x1_0000_0000 {
        Some(digits_value(digits) as u32)
    } else {
        None
    }
}

/// A digit string denotes a non-negative number.
proof fn lemma_digits_value_nonneg(s: Seq<char>)
    requires
        all_ascii_digits(s),
    ensures
        digits_value(s) >= 0,
    decreases s.len(),
{
    if s.len() > 0 {
        assert(forall|i: int|
            0 <= i < s.drop_last().len() ==> is_ascii_digit(#[trigger] s.drop_last()[i]));
        lemma_digits_value_nonneg(s.drop_last());
    }
}

/// Every prefix of a digit string denotes at most the whole string's value.
proof fn lemma_digits_value_prefix(s: Seq<char>, k: int)
    requires
        all_ascii_digits(s),
        0 <= k <= s.len(),
    ensures
        digits_value(s.take(k)) <= digits_value(s),
    decreases s.len() - k,
{
    if k == s.len() {
        assert(s.take(k) =~= s);
    } else {
        assert(s.take(k + 1).drop_last() =~= s.take(k));
        assert(s.take(k + 1).last() == s[k]);
        assert(forall|i: int| 0 <= i < s.take(k).len() ==> is_ascii_digit(#[trigger] s.take(k)[i]));
        lemma_digits_value_nonneg(s.take(k));
        assert(digits_value(s.take(k + 1)) == digits_value(s.take(k)) * 10 + digit_value(s[k]));
        lemma_digits_value_prefix(s, k + 1);
    }
}

/// Parses an unsigned 32-bit decimal: an optional leading plus sign and at
/// least one digit, rejecting any other character and any overflowing
/// value.
pub fn parse_u32_str(s: &str) -> (r: Option<u32>)
    ensures
        r == spec_parse_u32(s@),
{
    let n = s.unicode_len();
    let start: usize = if n > 0 && s.get_char(0) == '+' {
        1
    } else {
        0
    };
    let ghost digits = if s@.len() > 0 && s@[0] == '+' {
        s@.skip(1)
    } else {
        s@
    };
    if start >= n {
        return None;
    }
    let mut val: u32 = 0;
    let mut i: usize = start;
    proof {
        assert(digits.take(0) =~= Seq::<char>::empty());
    }
    while i < n
        invariant
            n == s@.len(),
            start <= 1,
            start <= i <= n,
            digits == (if s@.len() > 0 && s@[0] == '+' {
                s@.skip(1)
            } else {
                s@
            }),
            digits.len() == n - start,
            forall|j: int| 0 <= j < i - start ==> is_ascii_digit(#[trigger] digits[j]),
            forall|j: int| 0 <= j < i - start ==> digits[j] == s@[j + start],
            val as int == digits_value(digits.take(i - start)),
        decreases n - i,
    {
        let c = s.get_char(i);
        let cu = c as u32;
        proof {
            assert(digits[i - start] == s@[i as int]);
        }
        if cu < 48 || cu > 57 {
            return None;
        }
        let d = cu - 48;
        if val > (u32::MAX - d) / 10 {
            proof {
                assert(val as int * 10 + d as int > u32::MAX as int) by (nonlinear_arith)
                    requires
                        val as int > (u32::MAX as int - d as int) / 10,
                        0 <= d as int <= 9,
                ;
                if all_ascii_digits(digits) {
                    assert(digits.take(i - start + 1).drop_last() =~= digits.take(i - start));
                    assert(digits.take(i - start + 1).last() == digits[i - start]);
                    assert(digits_value(digits.take(i - start + 1)) == val as int * 10 + d as int);
                    lemma_digits_value_prefix(digits, i - start + 1);
                }
            }
            return None;
        }
        proof {
            assert(val as int * 10 + d as int <= u32::MAX as int) by (nonlinear_arith)
                requires
                    val as int <= (u32::MAX as int - d as int) / 10,
                    0 <= d as int <= 9,
            ;
            assert(digits.take(i - start + 1).drop_last() =~= digits.take(i - start));
            assert(digits.take(i - start + 1).last() == digits[i - start]);
        }
        val = val * 10 + d;
        i += 1;
    }
    proof {
        assert(digits.take(n - start) =~= digits);
    }
    Some(val)
}

/// What an outside case-folding call returns for the given characters; the
/// result depends on the characters alone.
pub uninterp spec fn lower_of(s: Seq<char>) -> Seq<char>;

/// Relies on str::to_lowercase: its result is a function of the input
/// characters alone.
#[verifier::external_body]
fn lowercase(s: &str) -> (r: String)
    ensures
        r@ == lower_of(s@),
{
    s.to_lowercase()
}

/// What a boolean token denotes once case-folded: `true`/`1` and
/// `false`/`0`, anything else nothing.
pub open spec fn spec_parse_bool(s: Seq<char>) -> Option<bool> {
    let l = lower_of(s);
    if l == "true"@ || l == "1"@ {
        Some(true)
    } else if l == "false"@ || l == "0"@ {
        Some(false)
    } else {
        None
    }
}

/// A type that the collected string values of one key can be parsed into.
pub trait CliArgumentParsable: Sized + DeepView {
    /// The value that the list denotes, if any.
    spec fn spec_parse(value: Seq<Seq<char>>) -> Option<Self::V>;

    /// Parses the collected values; fails exactly when they denote
    /// nothing.
    fn parse_argument(value: &[String]) -> (r: Result<Self, ()>)
        ensures
            match r {
                Ok(v) => Self::spec_parse(value.deep_view()) == Some(v.deep_view()),
                Err(_) => Self::spec_parse(value.deep_view()) is None,
            },
    ;
}

impl CliArgumentParsable for String {
    /// The last value given wins; an empty list denotes nothing.
    open spec fn spec_parse(value: Seq<Seq<char>>) -> Option<Seq<char>> {
        if value.len() == 0 {
            None
        } else {
            Some(value.last())
        }
    }

    fn parse_argument(value: &[String]) -> (r: Result<Self, ()>) {
        match value.last() {
            Some(s) => {
                proof {
                    assert(value.deep_view().last() == value@.last()@);
                }
                Ok(s.clone())
            },
            None => Err(()),
        }
    }
}

impl CliArgumentParsable for u32 {
    /// The first value parsed as a 32-bit decimal; an empty list denotes
    /// nothing.
    open spec fn spec_parse(value: Seq<Seq<char>>) -> Option<u32> {
        if value.len() == 0 {
            None
        } else {
            spec_parse_u32(value[0])
        }
    }

    fn parse_argument(value: &[String]) -> (r: Result<Self, ()>) {
        if value.is_empty() {
            return Err(());
        }
        proof {
            assert(value.deep_view()[0] == value@[0]@);
        }
        match parse_u32_str(value[0].as_str()) {
            Some(v) => Ok(v),
            None => Err(()),
        }
    }
}

impl CliArgumentParsable for bool {
    /// The first value, case-folded: `true`/`1` and `false`/`0`; an empty
    /// list denotes nothing.
    open spec fn spec_parse(value: Seq<Seq<char>>) -> Option<bool> {
        if value.len() == 0 {
            None
        } else {
            spec_parse_bool(value[0])
        }
    }

    fn parse_argument(value: &[String]) -> (r: Result<Self, ()>) {
        if value.is_empty() {
            return Err(());
        }
        proof {
            assert(value.deep_view()[0] == value@[0]@);
        }
        let low = lowercase(value[0].as_str());
        if str_eq(low.as_str(), "true") || str_eq(low.as_str(), "1") {
            Ok(true)
        } else if str_eq(low.as_str(), "false") || str_eq(low.as_str(), "0") {
            Ok(false)
        } else {
            Err(())
        }
    }
}

/// The values parsed one by one; nothing as soon as one of them denotes
/// nothing.
pub open spec fn spec_parse_list<T: CliArgumentParsable>(value: Seq<Seq<char>>) -> Option<
    Seq<T::V>,
>
    decreases value.len(),
{
    if value.len() == 0 {
        Some(Seq::empty())
    } else {
        match T::spec_parse(seq![value[0]]) {
            None => None,
            Some(x) => match spec_parse_list::<T>(value.skip(1)) {
                None => None,
                Some(xs) => Some(seq![x] + xs),
            },
        }
    }
}

impl<T: CliArgumentParsable> CliArgumentParsable for Vec<T> {
    /// Every value parsed in order; an empty list denotes nothing, and one
    /// unparsable value spoils the whole list.
    open spec fn spec_parse(value: Seq<Seq<char>>) -> Option<Seq<T::V>> {
        if value.len() == 0 {
            None
        } else {
            spec_parse_list::<T>(value)
        }
    }

    fn parse_argument(value: &[String]) -> (r: Result<Self, ()>) {
        let n = value.len();
        if n == 0 {
            return Err(());
        }
        let ghost dv = value.deep_view();
        let mut parsed: Vec<T> = Vec::new();
        let mut i: usize = 0;
        proof {
            assert(dv.skip(0) =~= dv);
            assert(parsed.deep_view() =~= Seq::<T::V>::empty());
        }
        while i < n
            invariant
                n == value@.len(),
                dv == value.deep_view(),
                i <= n,
                spec_parse_list::<T>(dv) == (match spec_parse_list::<T>(dv.skip(i as int)) {
                    Some(xs) => Some(parsed.deep_view() + xs),
                    None => None::<Seq<T::V>>,
                }),
            decreases n - i,
        {
            proof {
                assert(dv.skip(i as int)[0] == dv[i as int]);
                assert(dv.skip(i as int).skip(1) =~= dv.skip(i as int + 1));
                assert(dv[i as int] == value@[i as int]@);
            }
            let mut one: Vec<String> = Vec::new();
            one.push(value[i].clone());
            let single = one.as_slice();
            proof {
                assert(single.deep_view() =~= seq![dv[i as int]]);
            }
            let ghost p0 = parsed.deep_view();
            match T::parse_argument(single) {
                Ok(x) => {
                    parsed.push(x);
                    proof {
                        assert(parsed.deep_view() =~= p0.push(x.deep_view()));
                        assert(forall|xs: Seq<T::V>|
                            p0.push(x.deep_view()) + xs =~= p0 + (#[trigger] (seq![x.deep_view()]
                                + xs)));
                    }
                },
                Err(_) => {
                    return Err(());
                },
            }
            i += 1;
        }
        proof {
            assert(spec_parse_list::<T>(dv.skip(n as int)) == Some(Seq::<T::V>::empty()));
            assert(parsed.deep_view() + Seq::<T::V>::empty() =~= parsed.deep_view());
        }
        Ok(parsed)
    }
}

/// The declared shape of one typed argument: its long name, optional short
/// name, flag bit, and whether it may be absent.
#[derive(Debug)]
pub struct CliArgumentSpecification {
    pub name: String,
    pub short_name: Option<String>,
    pub is_flag: bool,
    pub optional: bool,
}

/// One typed argument: its declared shape and, once set, its parsed value.
#[derive(Debug)]
pub struct CliArgument<T: CliArgumentParsable> {
    pub specification: CliArgumentSpecification,
    pub value: Option<T>,
}

impl<T: CliArgumentParsable> CliArgument<T> {
    /// A declared argument with no value yet.
    pub fn new(specification: CliArgumentSpecification) -> (r: Self)
        ensures
            r.value is None,
            r.specification == specification,
    {
        CliArgument { value: None, specification }
    }

    /// Parses the collected values into this argument: the typed value when
    /// they denote one, nothing otherwise.
    pub fn set_value(&mut self, args: &Vec<String>)
        ensures
            final(self).specification == old(self).specification,
            match T::spec_parse(args.deep_view()) {
                Some(v) => final(self).value matches Some(x) && x.deep_view() == v,
                None => final(self).value is None,
            },
    {
        let slice = args.as_slice();
        proof {
            assert(slice.deep_view() =~= args.deep_view());
        }
        self.value = match T::parse_argument(slice) {
            Ok(parsed_value) => Some(parsed_value),
            Err(_) => None,
        };
    }
}

/// A configuration that can declare its arguments and absorb the bound
/// map; host programs implement it for their own types.
pub trait CliConfigurable {
    /// The declared shapes of every argument.
    fn get_definitions(&mut self) -> Vec<&CliArgumentSpecification>;

    /// Absorbs the bound argument map.
    fn populate(&mut self, args: &ArgumentMap);
}

} // verus!
