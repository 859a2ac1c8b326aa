//! Labels for threads: the bytes under which the samples of one thread are
//! filed, rendered from the thread's numeric identifier.

use vstd::prelude::*;

use crate::MAX_THREAD_NAME;

verus! {

/// Ten to the power `n`.
pub open spec fn pow10(n: nat) -> nat
    decreases n,
{
    if n == 0 {
        1
    } else {
        10 * pow10((n - 1) as nat)
    }
}

/// The decimal digits of `n` in ASCII, most significant first, without
/// leading zeros; zero is the single digit `0`.
pub open spec fn decimal(n: nat) -> Seq<u8>
    decreases n,
{
    if n < 10 {
        seq![(48 + n) as u8]
    } else {
        decimal(n / 10).push((48 + n % 10) as u8)
    }
}

/// The bytes of `Thread:`, with which every generated label begins.
pub open spec fn label_prefix() -> Seq<u8> {
    seq![84u8, 104u8, 114u8, 101u8, 97u8, 100u8, 58u8]
}

/// The label of the thread `thread_id`: `Thread:` and the identifier in
/// decimal.
pub open spec fn label_of(thread_id: u64) -> Seq<u8> {
    label_prefix() + decimal(thread_id as nat)
}

/// The digits of `n` that are still to be written once its last digits
/// stand: none when `n` is zero.
spec fn leading(n: nat) -> Seq<u8> {
    if n == 0 {
        Seq::empty()
    } else {
        decimal(n)
    }
}

/// Renders the label of the thread `thread_id`.
pub fn thread_label(thread_id: u64) -> (label: Vec<u8>)
    ensures
        label@ == label_of(thread_id),
{
    let mut digits: Vec<u8> = Vec::new();
    digits.push(48 + (thread_id % 10) as u8);
    let mut rest: u64 = thread_id / 10;
    assert(decimal(thread_id as nat) =~= leading(rest as nat) + digits@);
    while rest > 0
        invariant
            decimal(thread_id as nat) == leading(rest as nat) + digits@,
        decreases rest,
    {
        let ghost written = digits@;
        digits.insert(0, 48 + (rest % 10) as u8);
        assert(leading(rest as nat) + written =~= leading((rest / 10) as nat) + digits@);
        rest = rest / 10;
    }
    assert(leading(0) + digits@ =~= digits@);
    let mut label: Vec<u8> = vec![84u8, 104u8, 114u8, 101u8, 97u8, 100u8, 58u8];
    assert(label@ =~= label_prefix());
    label.append(&mut digits);
    label
}

/// The name that the fallback rendering gives the thread `current_thread`:
/// its identifier in decimal. An identifier of more than `MAX_THREAD_NAME`
/// digits is named by the last `MAX_THREAD_NAME` of them.
pub open spec fn fallback_name(current_thread: u128) -> Seq<u8> {
    let digits = decimal(current_thread as nat);
    if digits.len() <= MAX_THREAD_NAME {
        digits
    } else {
        digits.skip(digits.len() - MAX_THREAD_NAME)
    }
}

/// The number of bytes of that name: the number of decimal digits of the
/// identifier, and `MAX_THREAD_NAME` where it has more.
pub open spec fn fallback_len(current_thread: u128) -> nat {
    fallback_name(current_thread).len()
}

proof fn lemma_pow10_increases(a: nat, b: nat)
    requires
        a <= b,
    ensures
        1 <= pow10(a) <= pow10(b),
    decreases b,
{
    if b == 0 {
    } else if a == b {
        lemma_pow10_increases(0, (b - 1) as nat);
    } else {
        lemma_pow10_increases(a, (b - 1) as nat);
    }
}

proof fn lemma_pow10_at_least_ten(n: nat)
    requires
        n >= 1,
    ensures
        pow10(n) >= 10,
{
    lemma_pow10_increases(0, (n - 1) as nat);
}

proof fn lemma_pow10_limit(n: nat)
    requires
        n <= MAX_THREAD_NAME,
    ensures
        1 <= pow10(n) <= 10_000_000_000_000_000,
{
    lemma_pow10_increases(n, 16);
    assert(pow10(16) == 10_000_000_000_000_000) by {
        reveal_with_fuel(pow10, 17);
    }
}

/// A number has as many decimal digits as it takes to pass it with a power
/// of ten: at least one, and `n` lies from ten to the power of one digit
/// fewer up to, and not at, ten to the power of its digits.
pub proof fn lemma_decimal_len(n: nat)
    ensures
        decimal(n).len() >= 1,
        n < pow10(decimal(n).len()),
        decimal(n).len() > 1 ==> pow10((decimal(n).len() - 1) as nat) <= n,
    decreases n,
{
    assert(pow10(1) == 10) by {
        reveal_with_fuel(pow10, 2);
    }
    if n >= 10 {
        lemma_decimal_len(n / 10);
    }
}

/// The digit of `n` that stands `place` places from the right is the
/// quotient of `n` by ten to the power of `place`, taken modulo ten.
pub proof fn lemma_decimal_digit(n: nat, place: nat)
    requires
        place < decimal(n).len(),
    ensures
        decimal(n)[decimal(n).len() - 1 - place] == 48 + (n as int / pow10(place) as int) % 10,
    decreases n,
{
    if place == 0 {
        assert(pow10(0) == 1);
        assert(n as int / 1 == n);
    } else {
        let below = (place - 1) as nat;
        let rest = decimal(n / 10);
        assert(decimal(n) == rest.push((48 + n % 10) as u8));
        assert(decimal(n)[decimal(n).len() - 1 - place] == rest[rest.len() - 1 - below]);
        lemma_decimal_digit(n / 10, below);
        lemma_pow10_increases(0, below);
        assert(pow10(place) == 10 * pow10(below));
        vstd::arithmetic::div_mod::lemma_div_denominator(n as int, 10, pow10(below) as int);
        assert((n / 10) as int / pow10(below) as int == n as int / pow10(place) as int);
    }
}

/// The fallback name has at least one byte and never more than
/// `MAX_THREAD_NAME`: a buffer of that length takes the name of every
/// thread.
pub proof fn lemma_fallback_len_limit(current_thread: u128)
    ensures
        1 <= fallback_len(current_thread) <= MAX_THREAD_NAME,
{
    lemma_decimal_len(current_thread as nat);
}

/// The fallback name of an identifier below ten to the power of
/// `MAX_THREAD_NAME` is the identifier in decimal, whole.
pub proof fn lemma_fallback_name_is_decimal(current_thread: u128)
    requires
        current_thread < pow10(MAX_THREAD_NAME as nat),
    ensures
        fallback_name(current_thread) == decimal(current_thread as nat),
{
    let digits = decimal(current_thread as nat);
    lemma_decimal_len(current_thread as nat);
    if digits.len() > MAX_THREAD_NAME {
        lemma_pow10_increases(MAX_THREAD_NAME as nat, (digits.len() - 1) as nat);
    }
}

/// Writes the fallback name of the thread `current_thread` to the front of
/// `name`: the identifier in decimal, in ASCII. The rest of `name` is left
/// as it was.
pub fn write_thread_name_fallback(current_thread: u128, name: &mut [libc::c_char])
    requires
        fallback_len(current_thread) <= old(name)@.len(),
    ensures
        final(name)@.len() == old(name)@.len(),
        forall|i: int|
            0 <= i < fallback_len(current_thread) ==> final(name)@[i] == fallback_name(
                current_thread,
            )[i],
        forall|i: int|
            fallback_len(current_thread) <= i < old(name)@.len() ==> final(name)@[i] == old(
                name,
            )@[i],
{
    let ghost before = name@;
    let ghost digits = decimal(current_thread as nat);
    let mut len: usize = 1;
    let mut base: u128 = 10;
    proof {
        lemma_decimal_len(current_thread as nat);
        assert(pow10(1) == 10) by {
            reveal_with_fuel(pow10, 2);
        }
    }

    while current_thread >= base && len < MAX_THREAD_NAME
        invariant
            1 <= len <= MAX_THREAD_NAME,
            len <= digits.len(),
            digits == decimal(current_thread as nat),
            base == pow10(len as nat),
        decreases MAX_THREAD_NAME - len,
    {
        proof {
            lemma_pow10_limit(len as nat);
            lemma_decimal_len(current_thread as nat);
            if digits.len() <= len {
                lemma_pow10_increases(digits.len(), len as nat);
            }
        }
        base *= 10;
        len += 1;
    }

    let mut index: usize = 0;
    proof {
        lemma_decimal_len(current_thread as nat);
        if current_thread < base && digits.len() > len {
            lemma_pow10_increases(len as nat, (digits.len() - 1) as nat);
        }
        lemma_pow10_at_least_ten(len as nat);
    }
    while index < len && base > 1
        invariant
            index <= len <= name@.len(),
            len <= digits.len(),
            digits == decimal(current_thread as nat),
            len == fallback_len(current_thread),
            base == pow10((len - index) as nat),
            index < len ==> base > 1,
            name@.len() == before.len(),
            forall|i: int| 0 <= i < index ==> name@[i] == fallback_name(current_thread)[i],
            forall|i: int| index <= i < before.len() ==> name@[i] == before[i],
        decreases len - index,
    {
        base /= 10;
        proof {
            if index + 1 < len {
                lemma_pow10_at_least_ten((len - index - 1) as nat);
            }
            lemma_decimal_digit(current_thread as nat, (len - index - 1) as nat);
        }
        let digit: u128 = 48 + (current_thread / base) % 10;
        name[index] = digit as libc::c_char;
        index += 1;
    }
}

/// Writes the name of the thread `current_thread` to the front of `name`.
/// No richer name is looked up: this is the fallback name.
pub fn write_thread_name(current_thread: u128, name: &mut [libc::c_char])
    requires
        fallback_len(current_thread) <= old(name)@.len(),
    ensures
        final(name)@.len() == old(name)@.len(),
        forall|i: int|
            0 <= i < fallback_len(current_thread) ==> final(name)@[i] == fallback_name(
                current_thread,
            )[i],
        forall|i: int|
            fallback_len(current_thread) <= i < old(name)@.len() ==> final(name)@[i] == old(
                name,
            )@[i],
{
    write_thread_name_fallback(current_thread, name);
}

} // verus!
