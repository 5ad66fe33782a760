//! Characters, decimal numbers and separators.
use vstd::prelude::*;

verus! {

/// `String::push` appends one character to the end of the string.
pub assume_specification[ String::push ](s: &mut String, c: char)
    ensures
        final(s)@ == old(s)@.push(c),
;

/// The ASCII digit for `d`.
pub open spec fn digit(d: nat) -> char
    recommends
        d < 10,
{
    (48 + d) as char
}

/// Whether `c` is an ASCII digit.
pub open spec fn is_digit(c: char) -> bool {
    '0' <= c <= '9'
}

/// The number that an ASCII digit stands for.
pub open spec fn digit_value(c: char) -> nat
    recommends
        is_digit(c),
{
    (c as nat - 48) as nat
}

/// The decimal notation of `n`, without leading zeros.
pub open spec fn decimal(n: nat) -> Seq<char>
    decreases n,
{
    if n < 10 {
        seq![digit(n)]
    } else {
        decimal(n / 10).push(digit(n % 10))
    }
}

/// The decimal notation of `n`, filled up on the left with zeros to `width` characters.
pub open spec fn zero_padded(n: nat, width: nat) -> Seq<char> {
    let digits = decimal(n);
    if digits.len() >= width {
        digits
    } else {
        Seq::new((width - digits.len()) as nat, |i: int| '0') + digits
    }
}

/// The number that a sequence of digits stands for.
pub open spec fn positional_value(digits: Seq<char>) -> nat
    decreases digits.len(),
{
    if digits.len() == 0 {
        0
    } else {
        positional_value(digits.drop_last()) * 10 + digit_value(digits.last())
    }
}

/// Why a text is not an unsigned integer.
#[derive(Debug, Clone, Copy, PartialEq, Eq, Structural)]
pub enum IntError {
    /// The text is empty.
    Empty,
    /// A character is not a decimal digit.
    InvalidDigit,
    /// The number exceeds the largest value of the type.
    PosOverflow,
}

impl IntError {
    /// The text that describes the error.
    pub open spec fn text(self) -> Seq<char> {
        match self {
            IntError::Empty => "cannot parse integer from empty string"@,
            IntError::InvalidDigit => "invalid digit found in string"@,
            IntError::PosOverflow => "number too large to fit in target type"@,
        }
    }

    /// Describes the error.
    pub fn message(&self) -> (r: String)
        ensures
            r@ == self.text(),
    {
        match self {
            IntError::Empty => "cannot parse integer from empty string".to_owned(),
            IntError::InvalidDigit => "invalid digit found in string".to_owned(),
            IntError::PosOverflow => "number too large to fit in target type".to_owned(),
        }
    }
}

/// Reads `digits` from left to right as a number of at most `max`. The first character that
/// is no digit, or that carries the number past `max`, decides the error.
pub open spec fn scan_digits(digits: Seq<char>, max: nat) -> Result<nat, IntError>
    decreases digits.len(),
{
    if digits.len() == 0 {
        Ok(0)
    } else {
        match scan_digits(digits.drop_last(), max) {
            Err(e) => Err(e),
            Ok(n) => if !is_digit(digits.last()) {
                Err(IntError::InvalidDigit)
            } else if n * 10 + digit_value(digits.last()) > max {
                Err(IntError::PosOverflow)
            } else {
                Ok(n * 10 + digit_value(digits.last()))
            },
        }
    }
}

/// What stands behind an optional leading plus sign. A sign alone is kept.
pub open spec fn without_plus(s: Seq<char>) -> Seq<char> {
    if s.len() > 1 && s[0] == '+' {
        s.drop_first()
    } else {
        s
    }
}

/// Reads an unsigned integer of at most `max`: an optional plus sign and decimal digits.
pub open spec fn unsigned(s: Seq<char>, max: nat) -> Result<nat, IntError> {
    if s.len() == 0 {
        Err(IntError::Empty)
    } else {
        scan_digits(without_plus(s), max)
    }
}

/// `s` without the character `c`.
pub open spec fn without(s: Seq<char>, c: char) -> Seq<char> {
    s.filter(|x: char| x != c)
}

/// The pieces of `s` between the separators `sep`; there is always one more than separators.
pub open spec fn split(s: Seq<char>, sep: char) -> Seq<Seq<char>>
    decreases s.len(),
{
    if s.len() == 0 {
        seq![Seq::<char>::empty()]
    } else {
        let pieces = split(s.drop_last(), sep);
        if s.last() == sep {
            pieces.push(Seq::<char>::empty())
        } else {
            pieces.drop_last().push(pieces.last().push(s.last()))
        }
    }
}

/// The pieces joined with `sep` between them.
pub open spec fn join(pieces: Seq<Seq<char>>, sep: char) -> Seq<char>
    decreases pieces.len(),
{
    if pieces.len() == 0 {
        Seq::<char>::empty()
    } else if pieces.len() == 1 {
        pieces[0]
    } else {
        join(pieces.drop_last(), sep).push(sep) + pieces.last()
    }
}

/// The parts of `s` before and behind the first `sep`, if it occurs.
pub open spec fn split_once(s: Seq<char>, sep: char) -> Option<(Seq<char>, Seq<char>)> {
    if s.contains(sep) {
        let at = s.index_of_first(sep)->0;
        Some((s.take(at), s.skip(at + 1)))
    } else {
        None
    }
}

/// The texts that a list of character lists holds.
pub open spec fn rows(lists: Seq<Vec<char>>) -> Seq<Seq<char>> {
    lists.map_values(|list: Vec<char>| list@)
}

/// The characters of a string.
pub fn chars_of(s: &str) -> (r: Vec<char>)
    ensures
        r@ == s@,
{
    let mut out: Vec<char> = Vec::new();
    for c in it: s.chars()
        invariant
            out@ == it.seq().take(it.index()),
            it.seq() == s@,
    {
        out.push(c);
    }
    proof {
        assert(s@.take(s@.len() as int) =~= s@);
    }
    out
}

/// The string that holds the given characters.
pub fn string_of(chars: &Vec<char>) -> (r: String)
    ensures
        r@ == chars@,
{
    let mut out = String::new();
    for i in 0..chars.len()
        invariant
            out@ == chars@.take(i as int),
    {
        out.push(chars[i]);
        proof {
            assert(chars@.take(i + 1) =~= chars@.take(i as int).push(chars@[i as int]));
        }
    }
    proof {
        assert(chars@.take(chars@.len() as int) =~= chars@);
    }
    out
}

/// The ASCII digit for `d`.
fn digit_char(d: u64) -> (r: char)
    requires
        d < 10,
    ensures
        r == digit(d as nat),
{
    (48u8 + d as u8) as char
}

/// Appends the decimal notation of `n`.
pub fn push_decimal(out: &mut String, n: u64)
    ensures
        final(out)@ == old(out)@ + decimal(n as nat),
    decreases n,
{
    if n >= 10 {
        push_decimal(out, n / 10);
    }
    out.push(digit_char(n % 10));
}

/// Appends the decimal notation of `n`, filled up on the left with zeros to `width` characters.
pub fn push_zero_padded(out: &mut String, n: u64, width: usize)
    ensures
        final(out)@ == old(out)@ + zero_padded(n as nat, width as nat),
{
    let mut digits = String::new();
    push_decimal(&mut digits, n);
    let shown = chars_of(digits.as_str());
    let ghost before = out@;
    let mut filled: usize = 0;
    while filled < width && width - filled > shown.len()
        invariant
            filled <= width,
            shown@ == decimal(n as nat),
            filled == 0 || filled + shown@.len() <= width,
            out@ == before + Seq::new(filled as nat, |i: int| '0'),
        decreases width - filled,
    {
        out.push('0');
        filled = filled + 1;
        proof {
            assert(out@ =~= before + Seq::new(filled as nat, |i: int| '0'));
        }
    }
    out.append(digits.as_str());
    proof {
        lemma_decimal_shape(n as nat);
        assert(out@ =~= before + zero_padded(n as nat, width as nat));
    }
}

/// Reads an unsigned integer of at most `max`: an optional plus sign and decimal digits.
pub fn parse_unsigned(s: &Vec<char>, max: u64) -> (r: Result<u64, IntError>)
    ensures
        match unsigned(s@, max as nat) {
            Ok(n) => r is Ok && r->Ok_0 == n,
            Err(e) => r == Err::<u64, IntError>(e),
        },
{
    if s.len() == 0 {
        return Err(IntError::Empty);
    }
    let start: usize = if s.len() > 1 && s[0] == '+' {
        1
    } else {
        0
    };
    let ghost digits = without_plus(s@);
    proof {
        assert(digits =~= s@.skip(start as int));
    }
    let mut value: u64 = 0;
    let mut i: usize = start;
    while i < s.len()
        invariant
            start <= i <= s@.len(),
            s@.len() > 0,
            digits == without_plus(s@),
            digits == s@.skip(start as int),
            scan_digits(digits.take(i - start), max as nat) == Ok::<nat, IntError>(value as nat),
            value <= max,
        decreases s@.len() - i,
    {
        let c = s[i];
        let ghost seen = digits.take(i + 1 - start);
        proof {
            assert(seen.drop_last() =~= digits.take(i - start));
            assert(seen.last() == c);
        }
        if c < '0' || '9' < c {
            proof {
                lemma_scan_error_stays(digits, i + 1 - start, max as nat);
            }
            return Err(IntError::InvalidDigit);
        }
        let d: u64 = (c as u32 - 48) as u64;
        if value > max / 10 || d > max || value * 10 > max - d {
            proof {
                lemma_scan_error_stays(digits, i + 1 - start, max as nat);
            }
            return Err(IntError::PosOverflow);
        }
        value = value * 10 + d;
        i = i + 1;
    }
    proof {
        assert(digits.take(i - start) =~= digits);
    }
    Ok(value)
}

/// The characters of `s` other than `c`.
pub fn remove_char(s: &Vec<char>, c: char) -> (r: Vec<char>)
    ensures
        r@ == without(s@, c),
{
    let mut out: Vec<char> = Vec::new();
    for i in 0..s.len()
        invariant
            out@ == without(s@.take(i as int), c),
    {
        let ghost seen = s@.take(i + 1);
        proof {
            assert(seen.drop_last() =~= s@.take(i as int));
            reveal_with_fuel(Seq::filter, 2);
        }
        if s[i] != c {
            out.push(s[i]);
        }
    }
    proof {
        assert(s@.take(s@.len() as int) =~= s@);
    }
    out
}

/// The pieces of `s` between the separators `sep`.
pub fn split_chars(s: &Vec<char>, sep: char) -> (r: Vec<Vec<char>>)
    ensures
        rows(r@) == split(s@, sep),
        r@.len() > 0,
{
    let mut done: Vec<Vec<char>> = Vec::new();
    let mut piece: Vec<char> = Vec::new();
    for i in 0..s.len()
        invariant
            rows(done@).push(piece@) == split(s@.take(i as int), sep),
    {
        let ghost seen = s@.take(i + 1);
        let ghost before = split(s@.take(i as int), sep);
        proof {
            assert(seen.drop_last() =~= s@.take(i as int));
            assert(before.drop_last() =~= rows(done@));
        }
        if s[i] == sep {
            done.push(piece);
            piece = Vec::new();
        } else {
            piece.push(s[i]);
        }
        proof {
            assert(rows(done@).push(piece@) =~= split(seen, sep));
        }
    }
    done.push(piece);
    proof {
        assert(s@.take(s@.len() as int) =~= s@);
        assert(rows(done@) =~= split(s@, sep));
    }
    done
}

/// The parts of `s` before and behind the first `sep`, if it occurs.
pub fn split_once_chars(s: &Vec<char>, sep: char) -> (r: Option<(Vec<char>, Vec<char>)>)
    ensures
        match split_once(s@, sep) {
            Some((before, behind)) => {
                &&& r matches Some(parts)
                &&& parts.0@ == before
                &&& parts.1@ == behind
            },
            None => r is None,
        },
{
    let mut before: Vec<char> = Vec::new();
    let mut i: usize = 0;
    while i < s.len()
        invariant
            i <= s@.len(),
            before@ == s@.take(i as int),
            forall|j: int| 0 <= j < i ==> s@[j] != sep,
        decreases s@.len() - i,
    {
        if s[i] == sep {
            let mut behind: Vec<char> = Vec::new();
            let mut k: usize = i + 1;
            while k < s.len()
                invariant
                    i < k <= s@.len(),
                    behind@ == s@.subrange(i + 1, k as int),
                decreases s@.len() - k,
            {
                behind.push(s[k]);
                k = k + 1;
            }
            proof {
                s@.index_of_first_ensures(sep);
                assert(s@.contains(sep));
                assert(behind@ =~= s@.skip(i + 1));
            }
            return Some((before, behind));
        }
        before.push(s[i]);
        i = i + 1;
    }
    None
}

/// A scan that has failed on a prefix fails in the same way on the whole.
proof fn lemma_scan_error_stays(digits: Seq<char>, n: int, max: nat)
    requires
        0 <= n <= digits.len(),
        scan_digits(digits.take(n), max) is Err,
    ensures
        scan_digits(digits, max) == scan_digits(digits.take(n), max),
    decreases digits.len() - n,
{
    if n == digits.len() {
        assert(digits.take(n) =~= digits);
    } else {
        assert(digits.take(n + 1).drop_last() =~= digits.take(n));
        lemma_scan_error_stays(digits, n + 1, max);
    }
}

/// Decimal notation is made of digits, and of at least one.
pub proof fn lemma_decimal_shape(n: nat)
    ensures
        decimal(n).len() > 0,
        forall|i: int| 0 <= i < decimal(n).len() ==> is_digit(#[trigger] decimal(n)[i]),
    decreases n,
{
    if n >= 10 {
        lemma_decimal_shape(n / 10);
    }
}

/// The pieces of a split, joined again, are the whole, and no piece holds the separator.
pub proof fn law_split_join(s: Seq<char>, sep: char)
    ensures
        join(split(s, sep), sep) == s,
        split(s, sep).len() > 0,
        forall|i: int|
            0 <= i < split(s, sep).len() ==> !(#[trigger] split(s, sep)[i]).contains(sep),
    decreases s.len(),
{
    let pieces = split(s, sep);
    if s.len() > 0 {
        let front = s.drop_last();
        let before = split(front, sep);
        law_split_join(front, sep);
        if s.last() == sep {
            assert(pieces.drop_last() =~= before);
            assert(join(pieces, sep) =~= s);
        } else {
            assert(pieces.drop_last() =~= before.drop_last());
            assert(pieces.last() =~= before.last().push(s.last()));
            assert(!before[before.len() - 1].contains(sep));
            assert forall|k: int| 0 <= k < pieces.last().len() implies pieces.last()[k] != sep by {
                if k < before.last().len() {
                    assert(before.last()[k] != sep) by {
                        assert(before.last().contains(before.last()[k]));
                    }
                }
            }
            assert(join(pieces, sep) =~= join(before, sep).push(s.last()));
            assert(join(pieces, sep) =~= s);
        }
    }
}

/// Joining pieces that do not hold the separator, and splitting again, gives the pieces.
pub proof fn law_join_split(pieces: Seq<Seq<char>>, sep: char)
    requires
        pieces.len() > 0,
        forall|i: int| 0 <= i < pieces.len() ==> !(#[trigger] pieces[i]).contains(sep),
    ensures
        split(join(pieces, sep), sep) == pieces,
    decreases pieces.len(),
{
    let last = pieces.last();
    assert(!pieces[pieces.len() - 1].contains(sep));
    if pieces.len() == 1 {
        lemma_split_appended(Seq::<char>::empty(), last, sep);
        assert(Seq::<char>::empty() + last =~= last);
        assert(split(last, sep) =~= pieces);
    } else {
        let front = pieces.drop_last();
        assert forall|i: int| 0 <= i < front.len() implies !(#[trigger] front[i]).contains(sep) by {
            assert(front[i] == pieces[i]);
        }
        law_join_split(front, sep);
        let head = join(front, sep).push(sep);
        assert(head.drop_last() =~= join(front, sep));
        assert(split(head, sep) =~= front.push(Seq::<char>::empty()));
        lemma_split_appended(head, last, sep);
        assert(split(head + last, sep) =~= pieces);
    }
}

/// Characters other than the separator, appended to a text, belong to its last piece.
proof fn lemma_split_appended(head: Seq<char>, tail: Seq<char>, sep: char)
    requires
        !tail.contains(sep),
    ensures
        split(head, sep).len() > 0,
        split(head + tail, sep) == split(head, sep).drop_last().push(
            split(head, sep).last() + tail,
        ),
    decreases tail.len(),
{
    law_split_join(head, sep);
    let before = split(head, sep);
    if tail.len() == 0 {
        assert(head + tail =~= head);
        assert(before.last() + tail =~= before.last());
        assert(before.drop_last().push(before.last()) =~= before);
    } else {
        let rest = tail.drop_last();
        assert forall|k: int| 0 <= k < rest.len() implies rest[k] != sep by {
            assert(tail.contains(tail[k]));
        }
        lemma_split_appended(head, rest, sep);
        assert(tail.contains(tail.last()));
        assert((head + tail).drop_last() =~= head + rest);
        assert((head + tail).last() == tail.last());
        assert((before.last() + rest).push(tail.last()) =~= before.last() + tail);
        assert(split(head + rest, sep).drop_last() =~= before.drop_last());
    }
}

/// A scan succeeds exactly on digits whose value does not exceed `max`, with that value.
pub proof fn law_scan_meaning(digits: Seq<char>, max: nat)
    ensures
        scan_digits(digits, max) is Ok <==> (forall|i: int|
            0 <= i < digits.len() ==> is_digit(#[trigger] digits[i])) && positional_value(digits)
            <= max,
        scan_digits(digits, max) matches Ok(n) ==> n == positional_value(digits),
    decreases digits.len(),
{
    if digits.len() > 0 {
        let front = digits.drop_last();
        law_scan_meaning(front, max);
        if forall|i: int| 0 <= i < digits.len() ==> is_digit(#[trigger] digits[i]) {
            assert(is_digit(digits[digits.len() - 1]));
            assert forall|i: int| 0 <= i < front.len() implies is_digit(#[trigger] front[i]) by {
                assert(front[i] == digits[i]);
            }
        }
        if scan_digits(digits, max) is Ok {
            assert forall|i: int| 0 <= i < digits.len() implies is_digit(#[trigger] digits[i]) by {
                if i < front.len() {
                    assert(front[i] == digits[i]);
                }
            }
        }
    }
}

/// A number that is read does not exceed the bound.
pub proof fn law_unsigned_bound(s: Seq<char>, max: nat)
    ensures
        unsigned(s, max) matches Ok(n) ==> n <= max,
{
    law_scan_meaning(without_plus(s), max);
}

/// Decimal notation stands for the number that it was made from.
pub proof fn law_decimal_value(n: nat)
    ensures
        positional_value(decimal(n)) == n,
    decreases n,
{
    if n < 10 {
        assert(decimal(n).drop_last() =~= Seq::<char>::empty());
        assert(positional_value(decimal(n).drop_last()) == 0);
        assert(digit_value(decimal(n).last()) == n);
    } else {
        law_decimal_value(n / 10);
        assert(decimal(n).drop_last() =~= decimal(n / 10));
    }
}

/// A number that does not exceed `max` is read back from its decimal notation.
pub proof fn law_decimal_reads_back(n: nat, max: nat)
    requires
        n <= max,
    ensures
        unsigned(decimal(n), max) == Ok::<nat, IntError>(n),
{
    lemma_decimal_shape(n);
    law_decimal_value(n);
    law_scan_meaning(decimal(n), max);
    assert(is_digit(decimal(n)[0]));
}

/// Zeros on the left do not change the number that digits stand for.
pub proof fn law_padding_value(n: nat, width: nat)
    ensures
        positional_value(zero_padded(n, width)) == n,
{
    law_decimal_value(n);
    if decimal(n).len() < width {
        lemma_leading_zeros(decimal(n), (width - decimal(n).len()) as nat);
    }
}

/// Leading zeros do not change the value of digits.
proof fn lemma_leading_zeros(digits: Seq<char>, zeros: nat)
    ensures
        positional_value(Seq::new(zeros, |i: int| '0') + digits) == positional_value(digits),
    decreases digits.len(), zeros,
{
    let padded = Seq::new(zeros, |i: int| '0') + digits;
    if digits.len() > 0 {
        lemma_leading_zeros(digits.drop_last(), zeros);
        assert(padded.drop_last() =~= Seq::new(zeros, |i: int| '0') + digits.drop_last());
    } else if zeros > 0 {
        let fewer = (zeros - 1) as nat;
        lemma_leading_zeros(digits, fewer);
        assert(padded.drop_last() =~= Seq::new(fewer, |i: int| '0') + digits);
    } else {
        assert(padded =~= digits);
    }
}

/// Different numbers have different zero-padded notations.
pub proof fn law_padding_injective(m: nat, n: nat, width: nat)
    requires
        zero_padded(m, width) == zero_padded(n, width),
    ensures
        m == n,
{
    law_padding_value(m, width);
    law_padding_value(n, width);
}

/// One more digit at the end of a decimal notation makes ten times the number and that digit.
/// A single digit stands for itself.
pub proof fn law_decimal_grows(n: nat, d: nat)
    requires
        d < 10,
    ensures
        decimal(d) == seq![(48 + d) as char],
        n > 0 ==> decimal(10 * n + d) == decimal(n).push((48 + d) as char),
{
    if n > 0 {
        assert((10 * n + d) / 10 == n);
        assert((10 * n + d) % 10 == d);
    }
}

/// Padded notation ends in the decimal notation, has zeros in front of it, and is no longer than
/// it has to be.
pub proof fn law_padding_shape(n: nat, width: nat)
    ensures
        ({
            let padded = zero_padded(n, width);
            let zeros = padded.len() - decimal(n).len();
            &&& zeros >= 0
            &&& padded.skip(zeros) == decimal(n)
            &&& forall|i: int| 0 <= i < zeros ==> #[trigger] padded[i] == '0'
            &&& padded.len() >= width
            &&& zeros > 0 ==> padded.len() == width
        }),
{
    let padded = zero_padded(n, width);
    assert(padded.skip(padded.len() - decimal(n).len()) =~= decimal(n));
}

/// A text of one character is read as the digit that it is, if the bound allows it. A second sign
/// is not a digit.
pub proof fn law_reading_one(c: char, max: nat)
    ensures
        unsigned(Seq::<char>::empty(), max) == Err::<nat, IntError>(IntError::Empty),
        unsigned(seq!['+', '+'], max) == Err::<nat, IntError>(IntError::InvalidDigit),
        unsigned(seq![c], max) == if !('0' <= c <= '9') {
            Err::<nat, IntError>(IntError::InvalidDigit)
        } else if c as int - 48 > max {
            Err(IntError::PosOverflow)
        } else {
            Ok((c as int - 48) as nat)
        },
{
    reveal_with_fuel(scan_digits, 2);
    assert(seq![c].drop_last() =~= Seq::<char>::empty());
    assert(seq!['+', '+'].drop_first() =~= seq!['+']);
    assert(seq!['+'].drop_last() =~= Seq::<char>::empty());
}

/// A digit at the end of a number makes ten times the number and that digit, as long as the bound
/// allows it; any other character makes it invalid. A text that is not a number stays so for the
/// same reason, but for one that is empty or only a sign.
pub proof fn law_reading_grows(s: Seq<char>, c: char, max: nat)
    requires
        s.len() > 0,
        s != seq!['+'],
    ensures
        unsigned(s.push(c), max) == match unsigned(s, max) {
            Err(error) => Err::<nat, IntError>(error),
            Ok(n) => if !('0' <= c <= '9') {
                Err(IntError::InvalidDigit)
            } else if 10 * n + (c as int - 48) > max {
                Err(IntError::PosOverflow)
            } else {
                Ok((10 * n + (c as int - 48)) as nat)
            },
        },
{
    let digits = without_plus(s);
    if s.len() == 1 {
        assert(s =~= seq![s[0]]);
    }
    assert(without_plus(s.push(c)) =~= digits.push(c));
    assert(digits.push(c).drop_last() =~= digits);
}

/// A plus sign in front of a text without one makes no difference.
pub proof fn law_reading_sign(s: Seq<char>, max: nat)
    requires
        s.len() > 0,
        s[0] != '+',
    ensures
        unsigned(seq!['+'] + s, max) == unsigned(s, max),
{
    assert((seq!['+'] + s).drop_first() =~= s);
}

/// A character is taken out wherever it stands, and nothing else is.
pub proof fn law_without(a: Seq<char>, x: char, b: Seq<char>, c: char)
    ensures
        without(Seq::<char>::empty(), c) == Seq::<char>::empty(),
        x == c ==> without(a + seq![x] + b, c) == without(a + b, c),
        x != c ==> without(a + seq![x] + b, c) == without(a, c) + seq![x] + without(b, c),
        without(a + b, c) == without(a, c) + without(b, c),
{
    reveal(Seq::filter);
    lemma_without_concat(a, b, c);
    lemma_without_concat(a + seq![x], b, c);
    lemma_without_concat(a, seq![x], c);
    assert(seq![x].drop_last() =~= Seq::<char>::empty());
    reveal_with_fuel(Seq::filter, 2);
    assert(without(seq![x], c) =~= if x == c {
        Seq::<char>::empty()
    } else {
        seq![x]
    });
    assert(without(a, c) + Seq::<char>::empty() =~= without(a, c));
}

/// Taking a character out of two texts, one behind the other, is taking it out of each.
proof fn lemma_without_concat(a: Seq<char>, b: Seq<char>, c: char)
    ensures
        without(a + b, c) == without(a, c) + without(b, c),
    decreases b.len(),
{
    reveal(Seq::filter);
    if b.len() == 0 {
        assert(a + b =~= a);
        assert(without(a, c) + without(b, c) =~= without(a, c));
    } else {
        assert((a + b).drop_last() =~= a + b.drop_last());
        lemma_without_concat(a, b.drop_last(), c);
        assert(without(a + b, c) =~= without(a, c) + without(b, c));
    }
}

/// A text without the separator is a single piece. With a separator behind it, it is the first
/// piece, and the pieces of what follows come behind it.
pub proof fn law_split_pieces(first: Seq<char>, rest: Seq<char>, sep: char)
    requires
        !first.contains(sep),
    ensures
        split(first, sep) == seq![first],
        split(first + seq![sep] + rest, sep) == seq![first] + split(rest, sep),
{
    lemma_split_appended(Seq::<char>::empty(), first, sep);
    assert(Seq::<char>::empty() + first =~= first);
    assert(split(first, sep) =~= seq![first]);
    lemma_split_behind(first, rest, sep);
}

/// The pieces of what follows a separator come behind the first piece.
proof fn lemma_split_behind(first: Seq<char>, rest: Seq<char>, sep: char)
    requires
        split(first, sep) == seq![first],
    ensures
        split(first + seq![sep] + rest, sep) == seq![first] + split(rest, sep),
    decreases rest.len(),
{
    let whole = first + seq![sep] + rest;
    if rest.len() == 0 {
        assert(whole.drop_last() =~= first);
        assert(split(whole, sep) =~= seq![first] + split(rest, sep));
    } else {
        let front = rest.drop_last();
        lemma_split_behind(first, front, sep);
        law_split_join(front, sep);
        assert(whole.drop_last() =~= first + seq![sep] + front);
        assert(split(whole, sep) =~= seq![first] + split(rest, sep));
    }
}

/// The first separator divides a text; without one it is not divided.
pub proof fn law_split_once_parts(before: Seq<char>, behind: Seq<char>, sep: char)
    requires
        !before.contains(sep),
    ensures
        split_once(before, sep) is None,
        split_once(before + seq![sep] + behind, sep) == Some((before, behind)),
{
    let whole = before + seq![sep] + behind;
    assert(whole[before.len() as int] == sep);
    whole.index_of_first_ensures(sep);
    let at = whole.index_of_first(sep)->0;
    assert(at == before.len()) by {
        if at < before.len() {
            assert(before[at] == sep);
        }
    }
    assert(whole.take(at) =~= before);
    assert(whole.skip(at + 1) =~= behind);
}

} // verus!
