//! Farm identifiers and the decoding of an ownership verdict.

use vstd::prelude::*;

verus! {

pub open spec fn digit_char(d: nat) -> char {
    if d == 0 {
        '0'
    } else if d == 1 {
        '1'
    } else if d == 2 {
        '2'
    } else if d == 3 {
        '3'
    } else if d == 4 {
        '4'
    } else if d == 5 {
        '5'
    } else if d == 6 {
        '6'
    } else if d == 7 {
        '7'
    } else if d == 8 {
        '8'
    } else {
        '9'
    }
}

/// The decimal numeral of `n`, without leading zeros.
pub open spec fn decimal(n: nat) -> Seq<char>
    decreases n,
{
    if n < 10 {
        seq![digit_char(n)]
    } else {
        decimal(n / 10).push(digit_char(n % 10))
    }
}

/// A farm identifier: the seed, a `#`, and the farm's index under that seed.
pub open spec fn farm_id_text(seed: Seq<char>, index: nat) -> Seq<char> {
    seed + seq!['#'] + decimal(index)
}

/// Builds the identifier of the farm with the given index under `seed_id`.
///
/// Trusted: the body is `format!` from the standard library, whose `Display`
/// for `String` writes the string as it is and for an unsigned integer writes
/// its decimal numeral without sign or leading zeros. The contract says that
/// the result is the seed, then `#`, then that numeral.
#[verifier::external_body]
pub(crate) fn format_farm_id(seed_id: &String, index: u32) -> (r: String)
    ensures
        r@ == farm_id_text(seed_id@, index as nat),
{
    format!("{}#{}", seed_id, index)
}

/// The number that a string of decimal digits denotes.
pub open spec fn digits_value(s: Seq<char>) -> nat
    decreases s.len(),
{
    if s.len() == 0 {
        0
    } else {
        digits_value(s.drop_last()) * 10 + ((s.last() as nat) - 48) as nat
    }
}

pub open spec fn is_digit(c: char) -> bool {
    '0' <= c <= '9'
}

pub open spec fn all_digits(s: Seq<char>) -> bool {
    forall|i: int| 0 <= i < s.len() ==> is_digit(#[trigger] s[i])
}

/// The index that `s` denotes: an optional `+`, then at least one decimal
/// digit, with a value that fits the machine word.
pub open spec fn parsed_index(s: Seq<char>) -> Option<usize> {
    let body = if s.len() > 0 && s[0] == '+' {
        s.subrange(1, s.len() as int)
    } else {
        s
    };
    if body.len() > 0 && all_digits(body) && digits_value(body) <= usize::MAX {
        Some(digits_value(body) as usize)
    } else {
        None
    }
}

/// `k` is the position of the one and only `#` in `s`.
pub open spec fn splits_at(s: Seq<char>, k: int) -> bool {
    &&& 0 <= k < s.len()
    &&& s[k] == '#'
    &&& forall|j: int| 0 <= j < s.len() && j != k ==> s[j] != '#'
}

/// The seed and the index that a farm identifier names: the text before its
/// only `#`, and the index that the text after it denotes.
pub open spec fn parsed_farm_id(s: Seq<char>) -> Option<(Seq<char>, usize)> {
    if exists|k: int| splits_at(s, k) {
        let k = choose|k: int| splits_at(s, k);
        match parsed_index(s.subrange(k + 1, s.len() as int)) {
            Some(index) => Some((s.subrange(0, k), index)),
            None => None,
        }
    } else {
        None
    }
}

/// A longer string of digits denotes no smaller number than its prefix.
pub proof fn lemma_digits_value_grows(s: Seq<char>, n: int)
    requires
        all_digits(s),
        0 <= n <= s.len(),
    ensures
        digits_value(s.subrange(0, n)) <= digits_value(s),
    decreases s.len(),
{
    if n == s.len() {
        assert(s.subrange(0, n) =~= s);
    } else {
        let t = s.drop_last();
        assert(all_digits(t));
        assert(t.subrange(0, n) =~= s.subrange(0, n));
        lemma_digits_value_grows(t, n);
        assert(is_digit(s.last()));
    }
}

/// Reads the index that the characters of `s` from `start` on denote.
pub(crate) fn parse_index(s: &str, start: usize) -> (r: Option<usize>)
    requires
        start <= s@.len(),
    ensures
        r == parsed_index(s@.subrange(start as int, s@.len() as int)),
{
    let n = s.unicode_len();
    let ghost whole = s@.subrange(start as int, n as int);
    let mut from: usize = start;
    if from < n && s.get_char(from) == '+' {
        from = from + 1;
    }
    let ghost body = s@.subrange(from as int, n as int);
    assert(body =~= if whole.len() > 0 && whole[0] == '+' {
        whole.subrange(1, whole.len() as int)
    } else {
        whole
    });
    if from == n {
        return None;
    }
    let mut value: usize = 0;
    let mut i: usize = from;
    while i < n
        invariant
            from <= i <= n,
            n == s@.len(),
            whole == s@.subrange(start as int, n as int),
            body == s@.subrange(from as int, n as int),
            body == (if whole.len() > 0 && whole[0] == '+' {
                whole.subrange(1, whole.len() as int)
            } else {
                whole
            }),
            all_digits(body.subrange(0, i - from)),
            value == digits_value(body.subrange(0, i - from)),
        decreases n - i,
    {
        let c = s.get_char(i);
        if !('0' <= c && c <= '9') {
            assert(!is_digit(body[i - from]));
            return None;
        }
        let d: usize = (c as u8 - 48) as usize;
        proof {
            let next = body.subrange(0, i - from + 1);
            assert(next.drop_last() =~= body.subrange(0, i - from));
            assert(next.last() == c);
            assert forall|j: int| 0 <= j < next.len() implies is_digit(#[trigger] next[j]) by {
                if j < i - from {
                    assert(body.subrange(0, i - from)[j] == next[j]);
                }
            }
            assert(digits_value(next) == value * 10 + d);
            if value * 10 + d > usize::MAX {
                if all_digits(body) {
                    lemma_digits_value_grows(body, i - from + 1);
                }
            }
        }
        value = match value.checked_mul(10) {
            Some(v) => match v.checked_add(d) {
                Some(w) => w,
                None => {
                    return None;
                },
            },
            None => {
                return None;
            },
        };
        i += 1;
    }
    assert(body.subrange(0, i - from) =~= body);
    Some(value)
}

/// Splits a farm identifier into its seed and its index.
pub fn parse_farm_id(farm_id: &String) -> (r: Option<(String, usize)>)
    ensures
        match r {
            Some((seed, index)) => parsed_farm_id(farm_id@) == Some((seed@, index)),
            None => parsed_farm_id(farm_id@) is None,
        },
{
    let s = farm_id.as_str();
    let n = s.unicode_len();
    let mut k: usize = 0;
    while k < n && s.get_char(k) != '#'
        invariant
            k <= n,
            n == s@.len(),
            forall|j: int| 0 <= j < k ==> s@[j] != '#',
        decreases n - k,
    {
        k += 1;
    }
    if k == n {
        assert forall|q: int| !splits_at(s@, q) by {}
        return None;
    }
    let mut j: usize = k + 1;
    while j < n
        invariant
            k < j <= n,
            n == s@.len(),
            s@ == farm_id@,
            s@[k as int] == '#',
            forall|q: int| 0 <= q < j && q != k ==> s@[q] != '#',
        decreases n - j,
    {
        if s.get_char(j) == '#' {
            assert forall|q: int| !splits_at(s@, q) by {
                if splits_at(s@, q) {
                    assert(s@[k as int] == '#');
                    assert(s@[j as int] == '#');
                }
            }
            return None;
        }
        j += 1;
    }
    assert(splits_at(s@, k as int));
    assert forall|q: int| splits_at(s@, q) implies q == k by {}
    match parse_index(s, k + 1) {
        Some(index) => Some((s.substring_char(0, k).to_owned(), index)),
        None => None,
    }
}

/// The decimal numeral of a number consists of digits and denotes that number.
pub proof fn lemma_decimal_denotes(n: nat)
    ensures
        decimal(n).len() > 0,
        all_digits(decimal(n)),
        digits_value(decimal(n)) == n,
    decreases n,
{
    if n < 10 {
        let s = seq![digit_char(n)];
        assert(s.drop_last() =~= Seq::<char>::empty());
        assert(digits_value(s.drop_last()) == 0);
        assert(s.last() == digit_char(n));
    } else {
        lemma_decimal_denotes(n / 10);
        let s = decimal(n);
        assert(s.drop_last() =~= decimal(n / 10));
        assert(s.last() == digit_char(n % 10));
        assert forall|i: int| 0 <= i < s.len() implies is_digit(#[trigger] s[i]) by {
            if i < s.len() - 1 {
                assert(s[i] == decimal(n / 10)[i]);
            }
        }
    }
}

/// A farm identifier built from a seed without `#` and an index parses back
/// into that seed and that index.
pub proof fn lemma_farm_id_parses_back(seed: Seq<char>, index: usize)
    requires
        forall|i: int| 0 <= i < seed.len() ==> seed[i] != '#',
    ensures
        parsed_farm_id(farm_id_text(seed, index as nat)) == Some((seed, index)),
{
    let digits = decimal(index as nat);
    let s = farm_id_text(seed, index as nat);
    let k = seed.len() as int;
    lemma_decimal_denotes(index as nat);
    assert forall|j: int| 0 <= j < s.len() && j != k implies s[j] != '#' by {
        if j > k {
            assert(s[j] == digits[j - k - 1]);
            assert(is_digit(digits[j - k - 1]));
        }
    }
    assert(splits_at(s, k));
    let c = choose|c: int| splits_at(s, c);
    assert(c == k);
    assert(s.subrange(k + 1, s.len() as int) =~= digits);
    assert(s.subrange(0, k) =~= seed);
    assert(is_digit(digits[0]));
}

/// Farm identifiers of different seeds or indices differ, as long as no seed
/// holds a `#`.
pub proof fn lemma_farm_ids_distinct(seed_1: Seq<char>, index_1: usize, seed_2: Seq<char>, index_2: usize)
    requires
        forall|i: int| 0 <= i < seed_1.len() ==> seed_1[i] != '#',
        forall|i: int| 0 <= i < seed_2.len() ==> seed_2[i] != '#',
        seed_1 != seed_2 || index_1 != index_2,
    ensures
        farm_id_text(seed_1, index_1 as nat) != farm_id_text(seed_2, index_2 as nat),
{
    lemma_farm_id_parses_back(seed_1, index_1);
    lemma_farm_id_parses_back(seed_2, index_2);
}

/// The blanks that may surround a JSON value.
pub open spec fn json_space(b: u8) -> bool {
    b == 0x20 || b == 0x0a || b == 0x09 || b == 0x0d
}

/// `bytes` is `word` starting at `at`, with nothing but blanks around it.
pub open spec fn json_word_at(bytes: Seq<u8>, word: Seq<u8>, at: int) -> bool {
    &&& 0 <= at
    &&& at + word.len() <= bytes.len()
    &&& bytes.subrange(at, at + word.len()) == word
    &&& forall|i: int| 0 <= i < at ==> json_space(#[trigger] bytes[i])
    &&& forall|i: int| at + word.len() <= i < bytes.len() ==> json_space(#[trigger] bytes[i])
}

/// The boolean that a JSON text denotes, if it denotes one: the literal
/// `true` or `false`, optionally surrounded by blanks.
pub open spec fn json_bool(bytes: Seq<u8>) -> Option<bool> {
    if exists|at: int| json_word_at(bytes, seq![0x74u8, 0x72u8, 0x75u8, 0x65u8], at) {
        Some(true)
    } else if exists|at: int| json_word_at(bytes, seq![0x66u8, 0x61u8, 0x6cu8, 0x73u8, 0x65u8], at) {
        Some(false)
    } else {
        None
    }
}

/// Decodes a JSON boolean.
///
/// Trusted: the body calls `near_sdk::serde_json::from_slice::<bool>`. That
/// parser skips blanks (space, line feed, tab, carriage return), accepts
/// exactly the literals `true` and `false`, and fails if anything but blanks
/// follows; the contract says so, with a failure mapped to `None`.
#[verifier::external_body]
pub(crate) fn decode_bool(val: &Vec<u8>) -> (r: Option<bool>)
    ensures
        r == json_bool(val@),
{
    near_sdk::serde_json::from_slice::<bool>(val.as_slice()).ok()
}

} // verus!
