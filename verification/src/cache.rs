//! Cache-entry naming: a cache entry's identifier is `<key>_<total>`, where
//! `key` is derived deterministically from the search arguments and working
//! directory, and `total` is the number of result lines in the entry's body.
//! The total is recovered from the identifier alone, without reading the body.

use vstd::prelude::*;

verus! {

/// A decimal digit, as a character.
pub open spec fn is_digit(c: char) -> bool {
    48 <= c as int && c as int <= 57
}

/// Numeric value of a digit character.
pub open spec fn digit_value(c: char) -> int {
    c as int - 48
}

/// Value of a string of decimal digits, most significant first.
pub open spec fn digits_value(s: Seq<char>) -> int
    decreases s.len(),
{
    if s.len() == 0 {
        0
    } else {
        digits_value(s.drop_last()) * 10 + digit_value(s.last())
    }
}

/// Every character of `s` is a decimal digit.
pub open spec fn all_digits(s: Seq<char>) -> bool {
    forall|i: int| 0 <= i < s.len() ==> is_digit(s[i])
}

pub proof fn lemma_digits_value_nonneg(s: Seq<char>)
    requires
        all_digits(s),
    ensures
        digits_value(s) >= 0,
    decreases s.len(),
{
    if s.len() > 0 {
        lemma_digits_value_nonneg(s.drop_last());
    }
}

/// The value of a digit string is at least the value of any of its prefixes.
pub proof fn lemma_digits_value_prefix_le(s: Seq<char>, k: int)
    requires
        all_digits(s),
        0 <= k <= s.len(),
    ensures
        digits_value(s.take(k)) <= digits_value(s),
    decreases s.len() - k,
{
    if k < s.len() {
        assert(s.take(k + 1).drop_last() =~= s.take(k));
        assert(s.take(k + 1).last() == s[k]);
        lemma_digits_value_nonneg(s.take(k));
        lemma_digits_value_prefix_le(s, k + 1);
    } else {
        assert(s.take(k) =~= s);
    }
}

/// Number of occurrences of `c` in `s`.
pub open spec fn count_char(s: Seq<char>, c: char) -> int
    decreases s.len(),
{
    if s.len() == 0 {
        0
    } else {
        count_char(s.drop_last(), c) + if s.last() == c {
            1int
        } else {
            0int
        }
    }
}

/// Index of the first occurrence of the delimiter `'_'` in `s`
/// (`s.len()` when there is none).
pub open spec fn first_delim(s: Seq<char>) -> int
    decreases s.len(),
{
    if s.len() == 0 {
        0
    } else if s[0] == '_' {
        0
    } else {
        1 + first_delim(s.drop_first())
    }
}

pub proof fn lemma_first_delim_at(s: Seq<char>, k: int)
    requires
        0 <= k < s.len(),
        s[k] == '_',
        forall|j: int| 0 <= j < k ==> s[j] != '_',
    ensures
        first_delim(s) == k,
    decreases k,
{
    if k > 0 {
        lemma_first_delim_at(s.drop_first(), k - 1);
    }
}

/// The digits that follow the first delimiter of an identifier.
pub open spec fn count_suffix(id: Seq<char>) -> Seq<char> {
    id.subrange(first_delim(id) + 1, id.len() as int)
}

/// A non-empty digit string whose value fits in a machine word.
pub open spec fn valid_count_suffix(s: Seq<char>) -> bool {
    s.len() > 0 && all_digits(s) && digits_value(s) <= u64::MAX
}

/// Total count encoded in a cache entry identifier: the identifier must
/// split on the delimiter into exactly two parts, and the second part must
/// be a digit string. Anything else is a miss, never an error.
pub open spec fn decoded_total(id: Seq<char>) -> Option<u64> {
    if count_char(id, '_') == 1 && valid_count_suffix(count_suffix(id)) {
        Some(digits_value(count_suffix(id)) as u64)
    } else {
        None
    }
}

/// Decode the total match count from a cache entry's identifier.
/// Identifiers that do not have the `<key>_<total>` shape yield `None`.
pub fn decode_total(id: &str) -> (r: Option<u64>)
    ensures
        r == decoded_total(id@),
{
    let n = id.unicode_len();
    let ghost s = id@;
    let mut i: usize = 0;
    let mut delim_count: usize = 0;
    let mut delim_pos: usize = 0;
    let mut found: bool = false;
    while i < n
        invariant
            n == s.len(),
            s == id@,
            0 <= i <= n,
            delim_count == count_char(s.take(i as int), '_'),
            delim_count <= i,
            found <==> delim_count > 0,
            found ==> 0 <= delim_pos < i && s[delim_pos as int] == '_' && (forall|j: int|
                0 <= j < delim_pos ==> s[j] != '_'),
            !found ==> forall|j: int| 0 <= j < i ==> s[j] != '_',
        decreases n - i,
    {
        let c = id.get_char(i);
        proof {
            assert(s.take(i + 1).drop_last() =~= s.take(i as int));
            assert(s.take(i + 1).last() == s[i as int]);
        }
        if c == '_' {
            if !found {
                delim_pos = i;
                found = true;
            }
            delim_count = delim_count + 1;
        }
        i = i + 1;
    }
    proof {
        assert(s.take(n as int) =~= s);
    }
    if delim_count != 1 {
        return None;
    }
    proof {
        lemma_first_delim_at(s, delim_pos as int);
    }
    let ghost suffix = count_suffix(s);
    let start = delim_pos + 1;
    if start == n {
        return None;
    }
    let mut j = start;
    let mut total: u64 = 0;
    while j < n
        invariant
            n == s.len(),
            s == id@,
            suffix == count_suffix(s),
            suffix == s.subrange(start as int, n as int),
            start <= j <= n,
            1 <= start <= n,
            all_digits(suffix.take(j - start)),
            total == digits_value(suffix.take(j - start)),
        decreases n - j,
    {
        let c = id.get_char(j);
        let v = c as u32;
        proof {
            assert(suffix.take(j - start + 1).drop_last() =~= suffix.take(j - start));
            assert(suffix.take(j - start + 1).last() == s[j as int]);
        }
        if v < 48 || v > 57 {
            proof {
                assert(suffix[j - start] == s[j as int]);
                assert(!is_digit(suffix[j - start]));
            }
            return None;
        }
        let d = (v - 48) as u64;
        let next = match total.checked_mul(10) {
            Some(t) => t.checked_add(d),
            None => None,
        };
        match next {
            Some(t) => {
                total = t;
            },
            None => {
                proof {
                    assert(digits_value(suffix.take(j - start + 1)) > u64::MAX);
                    if all_digits(suffix) {
                        lemma_digits_value_prefix_le(suffix, j - start + 1);
                    }
                }
                return None;
            },
        }
        j = j + 1;
    }
    proof {
        assert(suffix.take(n - start) =~= suffix);
    }
    Some(total)
}

/// The digit character for a value below ten.
pub open spec fn digit_char(d: int) -> char {
    if d == 0 {
        '0'
    } else if d == 1 {
        '1'
    } else if d == 2 {
        '2'
    } else if d == 3 {
        '3'
    } else if d == 4 {
        '4'
    } else if d == 5 {
        '5'
    } else if d == 6 {
        '6'
    } else if d == 7 {
        '7'
    } else if d == 8 {
        '8'
    } else {
        '9'
    }
}

/// Decimal rendering of a number, most significant digit first.
pub open spec fn decimal_digits(n: nat) -> Seq<char>
    decreases n,
{
    if n < 10 {
        seq![digit_char(n as int)]
    } else {
        decimal_digits(n / 10).push(digit_char((n % 10) as int))
    }
}

/// Decimal rendering round-trips: the rendered digits are all digits, none
/// is the identifier delimiter, and their value is the rendered number.
pub proof fn lemma_decimal_digits_correct(n: nat)
    ensures
        decimal_digits(n).len() > 0,
        all_digits(decimal_digits(n)),
        forall|i: int| 0 <= i < decimal_digits(n).len() ==> decimal_digits(n)[i] != '_',
        digits_value(decimal_digits(n)) == n,
    decreases n,
{
    if n < 10 {
        assert(decimal_digits(n) =~= seq![digit_char(n as int)]);
        assert(decimal_digits(n).drop_last() =~= Seq::<char>::empty());
        assert(digits_value(Seq::<char>::empty()) == 0);
        assert(digit_value(digit_char(n as int)) == n);
    } else {
        lemma_decimal_digits_correct(n / 10);
        let d = decimal_digits(n / 10);
        let c = digit_char((n % 10) as int);
        assert(d.push(c).drop_last() =~= d);
        assert(d.push(c).last() == c);
        assert(forall|i: int|
            0 <= i < d.push(c).len() ==> d.push(c)[i] == if i < d.len() {
                d[i]
            } else {
                c
            });
    }
}

/// Relies on `String::push`: appends exactly one character.
#[verifier::external_body]
fn push_char(s: &mut String, c: char)
    ensures
        final(s)@ == old(s)@.push(c),
{
    s.push(c);
}

/// The digit character for a value below ten.
pub fn digit_to_char(d: u8) -> (c: char)
    requires
        d < 10,
    ensures
        c == digit_char(d as int),
{
    if d == 0 {
        '0'
    } else if d == 1 {
        '1'
    } else if d == 2 {
        '2'
    } else if d == 3 {
        '3'
    } else if d == 4 {
        '4'
    } else if d == 5 {
        '5'
    } else if d == 6 {
        '6'
    } else if d == 7 {
        '7'
    } else if d == 8 {
        '8'
    } else {
        '9'
    }
}

/// Render a count in decimal.
pub fn u64_to_decimal(n: u64) -> (s: String)
    ensures
        s@ == decimal_digits(n as nat),
    decreases n,
{
    if n < 10 {
        let c = digit_to_char(n as u8);
        let mut s = String::new();
        push_char(&mut s, c);
        proof {
            assert(s@ =~= seq![digit_char(n as int)]);
        }
        s
    } else {
        let mut s = u64_to_decimal(n / 10);
        let c = digit_to_char((n % 10) as u8);
        push_char(&mut s, c);
        s
    }
}

/// The identifier under which a cache entry with the given key and total
/// match count is stored: `<key>_<total>`.
pub open spec fn encoded_identifier(key: Seq<char>, total: u64) -> Seq<char> {
    key + seq!['_'] + decimal_digits(total as nat)
}

/// Build the identifier for a cache entry: the key, the delimiter, then the
/// total in decimal.
pub fn encode_identifier(key: &str, total: u64) -> (r: String)
    ensures
        r@ == encoded_identifier(key@, total),
{
    let mut s = String::from_str(key);
    push_char(&mut s, '_');
    let d = u64_to_decimal(total);
    s.append(d.as_str());
    proof {
        assert(s@ =~= encoded_identifier(key@, total));
    }
    s
}

pub proof fn lemma_count_char_zero(s: Seq<char>, c: char)
    requires
        forall|j: int| 0 <= j < s.len() ==> s[j] != c,
    ensures
        count_char(s, c) == 0,
    decreases s.len(),
{
    if s.len() > 0 {
        lemma_count_char_zero(s.drop_last(), c);
    }
}

pub proof fn lemma_count_char_concat(a: Seq<char>, b: Seq<char>, c: char)
    ensures
        count_char(a + b, c) == count_char(a, c) + count_char(b, c),
    decreases b.len(),
{
    if b.len() == 0 {
        assert(a + b =~= a);
    } else {
        assert((a + b).drop_last() =~= a + b.drop_last());
        assert((a + b).last() == b.last());
        lemma_count_char_concat(a, b.drop_last(), c);
    }
}

/// Decoding recovers the encoded total exactly, for every key that is free
/// of the delimiter and every total.
pub proof fn lemma_encode_decode(key: Seq<char>, total: u64)
    requires
        forall|i: int| 0 <= i < key.len() ==> key[i] != '_',
    ensures
        decoded_total(encoded_identifier(key, total)) == Some(total),
{
    let digits = decimal_digits(total as nat);
    let id = encoded_identifier(key, total);
    lemma_decimal_digits_correct(total as nat);
    lemma_count_char_zero(key, '_');
    lemma_count_char_zero(digits, '_');
    assert(count_char(seq!['_'], '_') == 1) by {
        assert(seq!['_'].drop_last() =~= Seq::<char>::empty());
        assert(count_char(Seq::<char>::empty(), '_') == 0);
        assert(seq!['_'].last() == '_');
    }
    lemma_count_char_concat(key, seq!['_'], '_');
    lemma_count_char_concat(key + seq!['_'], digits, '_');
    assert(count_char(id, '_') == 1);
    assert(id[key.len() as int] == '_');
    lemma_first_delim_at(id, key.len() as int);
    assert(count_suffix(id) =~= digits);
}

/// Fowler-Noll-Vo offset basis and prime, for the key hash.
pub const FNV_OFFSET: u64 = 14695981039346656037;

pub const FNV_PRIME: u64 = 1099511628211;

/// One hashing step: fold one value into the running hash.
pub open spec fn fnv_step(h: u64, v: u64) -> u64 {
    u64::wrapping_mul(h ^ v, FNV_PRIME)
}

/// Code point of a character, as hashed.
pub open spec fn char_code(c: char) -> u64 {
    (c as u32) as u64
}

/// Fold a string into the running hash, character by character.
pub open spec fn fnv_chars(h: u64, s: Seq<char>) -> u64
    decreases s.len(),
{
    if s.len() == 0 {
        h
    } else {
        fnv_step(fnv_chars(h, s.drop_last()), char_code(s.last()))
    }
}

/// Fold one field into the running hash and close it with a separator, so
/// that distinct argument boundaries hash differently.
pub open spec fn fnv_field(h: u64, s: Seq<char>) -> u64 {
    fnv_step(fnv_chars(h, s), 31)
}

/// Fold a sequence of fields into the running hash.
pub open spec fn fnv_fields(h: u64, fields: Seq<Seq<char>>) -> u64
    decreases fields.len(),
{
    if fields.len() == 0 {
        h
    } else {
        fnv_field(fnv_fields(h, fields.drop_last()), fields.last())
    }
}

/// The cache key derived from a search's arguments and working directory:
/// the hash of all argument tokens and the directory, rendered in decimal.
/// Free of the delimiter by construction.
pub open spec fn spec_cache_key(args: Seq<Seq<char>>, dir: Seq<char>) -> Seq<char> {
    decimal_digits(fnv_field(fnv_fields(FNV_OFFSET, args), dir) as nat)
}

/// Resolving the cache key twice with identical arguments and directory
/// yields identical keys.
pub proof fn lemma_cache_key_deterministic(
    args1: Seq<Seq<char>>,
    dir1: Seq<char>,
    args2: Seq<Seq<char>>,
    dir2: Seq<char>,
)
    requires
        args1 == args2,
        dir1 == dir2,
    ensures
        spec_cache_key(args1, dir1) == spec_cache_key(args2, dir2),
{
}

/// The cache key never contains the identifier delimiter, so an identifier
/// built from it always decodes.
pub proof fn lemma_cache_key_no_delim(args: Seq<Seq<char>>, dir: Seq<char>)
    ensures
        forall|i: int|
            0 <= i < spec_cache_key(args, dir).len() ==> spec_cache_key(args, dir)[i] != '_',
{
    lemma_decimal_digits_correct(fnv_field(fnv_fields(FNV_OFFSET, args), dir) as nat);
}

/// An identifier built from a derived cache key always decodes to the
/// total it was built with, whatever the arguments and directory were.
pub proof fn lemma_derived_identifier_decodes(args: Seq<Seq<char>>, dir: Seq<char>, total: u64)
    ensures
        decoded_total(encoded_identifier(spec_cache_key(args, dir), total)) == Some(total),
{
    lemma_cache_key_no_delim(args, dir);
    lemma_encode_decode(spec_cache_key(args, dir), total);
}

/// Fold one string into the running hash.
fn hash_chars(h: u64, s: &str) -> (r: u64)
    ensures
        r == fnv_chars(h, s@),
{
    let n = s.unicode_len();
    let mut i: usize = 0;
    let mut acc = h;
    while i < n
        invariant
            n == s@.len(),
            0 <= i <= n,
            acc == fnv_chars(h, s@.take(i as int)),
        decreases n - i,
    {
        let c = s.get_char(i);
        proof {
            assert(s@.take(i + 1).drop_last() =~= s@.take(i as int));
            assert(s@.take(i + 1).last() == s@[i as int]);
        }
        acc = (acc ^ ((c as u32) as u64)).wrapping_mul(FNV_PRIME);
        i = i + 1;
    }
    proof {
        assert(s@.take(n as int) =~= s@);
    }
    acc
}

/// Derive the cache key for a search from its argument tokens and working
/// directory. Deterministic: equal inputs give equal keys.
pub fn cache_key(args: &Vec<String>, dir: &str) -> (r: String)
    ensures
        r@ == spec_cache_key(args.deep_view(), dir@),
{
    let mut h: u64 = FNV_OFFSET;
    let mut k: usize = 0;
    while k < args.len()
        invariant
            0 <= k <= args.len(),
            h == fnv_fields(FNV_OFFSET, args.deep_view().take(k as int)),
        decreases args.len() - k,
    {
        proof {
            assert(args.deep_view().take(k + 1).drop_last() =~= args.deep_view().take(k as int));
            assert(args.deep_view().take(k + 1).last() == args[k as int]@);
        }
        h = hash_chars(h, args[k].as_str());
        h = (h ^ 31).wrapping_mul(FNV_PRIME);
        k = k + 1;
    }
    proof {
        assert(args.deep_view().take(args.len() as int) =~= args.deep_view());
    }
    let hd = hash_chars(h, dir);
    let hc = (hd ^ 31).wrapping_mul(FNV_PRIME);
    u64_to_decimal(hc)
}

} // verus!
