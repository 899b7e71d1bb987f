use vstd::prelude::*;

verus! {

/// The last `len` base-256 digits of `n`, the most significant first.
pub open spec fn be_digits(n: nat, len: nat) -> Seq<u8>
    decreases len,
{
    if len == 0 {
        Seq::empty()
    } else {
        be_digits(n / 256, (len - 1) as nat).push((n % 256) as u8)
    }
}

/// The number that base-256 digits stand for, the most significant first.
pub open spec fn be_value(digits: Seq<u8>) -> nat
    decreases digits.len(),
{
    if digits.len() == 0 {
        0
    } else {
        be_value(digits.drop_last()) * 256 + digits.last() as nat
    }
}

/// The number of values that `len` base-256 digits can stand for.
pub open spec fn radix(len: nat) -> nat
    decreases len,
{
    if len == 0 {
        1
    } else {
        256 * radix((len - 1) as nat)
    }
}

/// `be_digits` gives as many digits as it is asked for.
pub proof fn lemma_be_digits_len(n: nat, len: nat)
    ensures
        be_digits(n, len).len() == len,
    decreases len,
{
    if len > 0 {
        lemma_be_digits_len(n / 256, (len - 1) as nat);
    }
}

/// More digits stand for more values.
pub proof fn lemma_radix_grows(shorter: nat, longer: nat)
    requires
        shorter <= longer,
    ensures
        1 <= radix(shorter) <= radix(longer),
    decreases longer,
{
    if shorter < longer {
        lemma_radix_grows(shorter, (longer - 1) as nat);
    } else if shorter > 0 {
        lemma_radix_grows((shorter - 1) as nat, (longer - 1) as nat);
    }
}

/// Sixteen digits stand for the values of 128 bits.
pub proof fn lemma_radix_sixteen()
    ensures
        radix(16) == 0x1_0000_0000_0000_0000_0000_0000_0000_0000,
{
    reveal_with_fuel(radix, 17);
}

/// Digits stand for a number below the radix of their length.
pub proof fn lemma_be_value_bound(digits: Seq<u8>)
    ensures
        be_value(digits) < radix(digits.len()),
    decreases digits.len(),
{
    if digits.len() > 0 {
        lemma_be_value_bound(digits.drop_last());
    }
}

/// Reading digits and writing the number down again gives the digits back.
pub proof fn lemma_digits_of_value(digits: Seq<u8>)
    ensures
        be_digits(be_value(digits), digits.len()) == digits,
    decreases digits.len(),
{
    if digits.len() > 0 {
        let rest = digits.drop_last();
        lemma_digits_of_value(rest);
        let value = be_value(digits);
        assert(value / 256 == be_value(rest));
        assert(value % 256 == digits.last() as nat);
        assert(be_digits(value, digits.len()) =~= digits);
    } else {
        assert(be_digits(be_value(digits), digits.len()) =~= digits);
    }
}

/// Writing a number down in enough digits and reading them gives the number back.
pub proof fn lemma_value_of_digits(n: nat, len: nat)
    requires
        n < radix(len),
    ensures
        be_value(be_digits(n, len)) == n,
    decreases len,
{
    if len > 0 {
        lemma_value_of_digits(n / 256, (len - 1) as nat);
        assert(be_digits(n, len).drop_last() =~= be_digits(n / 256, (len - 1) as nat));
    }
}

/// Appends the last `len` base-256 digits of `n` to `data`, the most significant first.
pub fn push_be_digits(data: &mut Vec<u8>, n: u128, len: usize)
    ensures
        final(data)@ == old(data)@ + be_digits(n as nat, len as nat),
    decreases len,
{
    if len > 0 {
        push_be_digits(data, n / 256, len - 1);
        data.push((n % 256) as u8);
        assert(data@ =~= old(data)@ + be_digits(n as nat, len as nat));
    } else {
        assert(data@ =~= old(data)@ + be_digits(n as nat, len as nat));
    }
}

/// Reads the sixteen digits that start at `start`.
pub fn read_sixteen(bytes: &Vec<u8>, start: usize) -> (n: u128)
    requires
        start + 16 <= bytes@.len(),
    ensures
        n == be_value(bytes@.subrange(start as int, start + 16)),
{
    let len: usize = bytes.len();
    let mut n: u128 = 0;
    let mut k: usize = 0;
    assert(bytes@.subrange(start as int, start as int) =~= Seq::<u8>::empty());
    while k < 16
        invariant
            k <= 16,
            start + 16 <= len == bytes@.len(),
            n == be_value(bytes@.subrange(start as int, start + k)),
        decreases 16 - k,
    {
        proof {
            let read = bytes@.subrange(start as int, start + k);
            let next = bytes@.subrange(start as int, start + k + 1);
            assert(next.drop_last() =~= read);
            assert(next.last() == bytes@[start + k]);
            lemma_be_value_bound(next);
            lemma_radix_grows((k + 1) as nat, 16);
            lemma_radix_sixteen();
        }
        n = n * 256 + bytes[start + k] as u128;
        k += 1;
    }
    n
}

} // verus!
