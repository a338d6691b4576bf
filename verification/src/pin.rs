//! The eight-digit pin that a controller's user enters to pair.
use vstd::prelude::*;

verus! {

/// Why a pin was refused.
#[derive(Clone, Copy, Debug, PartialEq, Eq, Structural)]
pub enum PinError {
    /// One of the eight numbers is not a decimal digit.
    NotADigit,
    /// The pin is one of those that are too easy to guess.
    TooEasy,
}

/// An eight-digit pin.
#[derive(Clone, Copy, Debug)]
pub struct Pin {
    digits: [u8; 8],
}

/// Every number is a decimal digit.
pub open spec fn all_digits(digits: Seq<u8>) -> bool {
    forall|i: int| 0 <= i < digits.len() ==> digits[i] <= 9
}

/// The pins that are not allowed: `12345678`, `87654321`, and one digit eight times.
pub open spec fn too_easy(digits: Seq<u8>) -> bool {
    ||| digits == seq![1u8, 2, 3, 4, 5, 6, 7, 8]
    ||| digits == seq![8u8, 7, 6, 5, 4, 3, 2, 1]
    ||| exists|digit: u8| digit <= 9 && digits == #[trigger] repeated(digit)
}

/// One digit eight times.
pub open spec fn repeated(digit: u8) -> Seq<u8> {
    seq![digit, digit, digit, digit, digit, digit, digit, digit]
}

/// The pins that can be used.
pub open spec fn allowed(digits: Seq<u8>) -> bool {
    &&& digits.len() == 8
    &&& all_digits(digits)
    &&& !too_easy(digits)
}

/// The digits read as one decimal number: the setup code.
pub open spec fn setup_code(digits: Seq<u8>) -> nat
    decreases digits.len(),
{
    if digits.len() == 0 {
        0
    } else {
        setup_code(digits.drop_last()) * 10 + digits.last() as nat
    }
}

/// Ten to the given power.
pub open spec fn ten_to(exponent: nat) -> nat
    decreases exponent,
{
    if exponent == 0 {
        1
    } else {
        10 * ten_to((exponent - 1) as nat)
    }
}

/// A setup code of `n` digits is below ten to the `n`.
proof fn lemma_code_bound(digits: Seq<u8>)
    requires
        all_digits(digits),
    ensures
        setup_code(digits) < ten_to(digits.len()),
    decreases digits.len(),
{
    if digits.len() > 0 {
        lemma_code_bound(digits.drop_last());
    }
}

/// The setup code of an eight-digit pin is below a hundred million.
pub(crate) proof fn lemma_eight_digits(digits: Seq<u8>)
    requires
        digits.len() == 8,
        all_digits(digits),
    ensures
        setup_code(digits) < 100_000_000,
{
    lemma_code_bound(digits);
    reveal_with_fuel(ten_to, 9);
}

/// Pins of the same length with the same setup code are the same pin.
pub proof fn law_code_determines_pin(a: Seq<u8>, b: Seq<u8>)
    requires
        a.len() == b.len(),
        all_digits(a),
        all_digits(b),
        setup_code(a) == setup_code(b),
    ensures
        a == b,
    decreases a.len(),
{
    if a.len() > 0 {
        assert(a.last() == b.last() && setup_code(a.drop_last()) == setup_code(b.drop_last()));
        law_code_determines_pin(a.drop_last(), b.drop_last());
        assert(a =~= a.drop_last().push(a.last()));
        assert(b =~= b.drop_last().push(b.last()));
    } else {
        assert(a =~= b);
    }
}

/// The setup code of an eight-digit pin is the number that the digits are read as in decimal, the
/// first of them the most significant.
pub proof fn law_setup_code_is_the_decimal_number(digits: Seq<u8>)
    requires
        digits.len() == 8,
    ensures
        setup_code(digits) == digits[0] * 10_000_000 + digits[1] * 1_000_000 + digits[2] * 100_000
            + digits[3] * 10_000 + digits[4] * 1_000 + digits[5] * 100 + digits[6] * 10 + digits[7],
{
    reveal_with_fuel(setup_code, 9);
    let seven = digits.drop_last();
    let six = seven.drop_last();
    let five = six.drop_last();
    let four = five.drop_last();
    let three = four.drop_last();
    let two = three.drop_last();
    let one = two.drop_last();
    assert(setup_code(one) == digits[0]);
    assert(setup_code(two) == setup_code(one) * 10 + digits[1]);
    assert(setup_code(three) == setup_code(two) * 10 + digits[2]);
    assert(setup_code(four) == setup_code(three) * 10 + digits[3]);
    assert(setup_code(five) == setup_code(four) * 10 + digits[4]);
    assert(setup_code(six) == setup_code(five) * 10 + digits[5]);
    assert(setup_code(seven) == setup_code(six) * 10 + digits[6]);
}

/// A pin has the digits that it was made of, and its code is their decimal number.
pub proof fn law_pin_is_its_digits(digits: [u8; 8], pin: Pin, read: [u8; 8], code: u64)
    requires
        call_ensures(Pin::new, (digits,), Ok::<Pin, PinError>(pin)),
        call_ensures(Pin::digits, (&pin,), read),
        call_ensures(Pin::code, (&pin,), code),
    ensures
        read@ == digits@,
        code == digits@[0] * 10_000_000 + digits@[1] * 1_000_000 + digits@[2] * 100_000 + digits@[3]
            * 10_000 + digits@[4] * 1_000 + digits@[5] * 100 + digits@[6] * 10 + digits@[7],
{
    law_setup_code_is_the_decimal_number(digits@);
}

/// Eight numbers are a pin unless one of them is above nine, or they count up from one or down to
/// one, or they are all the same. The first of these is told apart from the others.
pub proof fn law_only_digits_that_are_not_too_easy(digits: [u8; 8], made: Result<Pin, PinError>)
    requires
        call_ensures(Pin::new, (digits,), made),
    ensures
        made == Err::<Pin, PinError>(PinError::NotADigit) <==> exists|i: int|
            0 <= i < 8 && #[trigger] digits@[i] > 9,
        made == Err::<Pin, PinError>(PinError::TooEasy) <==> {
            ||| forall|i: int| 0 <= i < 8 ==> #[trigger] digits@[i] == i + 1
            ||| forall|i: int| 0 <= i < 8 ==> #[trigger] digits@[i] == 8 - i
            ||| digits@[0] <= 9 && forall|i: int| 0 <= i < 8 ==> #[trigger] digits@[i] == digits@[0]
        },
        made is Ok <==> {
            &&& forall|i: int| 0 <= i < 8 ==> #[trigger] digits@[i] <= 9
            &&& exists|i: int| 0 <= i < 8 && #[trigger] digits@[i] != i + 1
            &&& exists|i: int| 0 <= i < 8 && #[trigger] digits@[i] != 8 - i
            &&& exists|i: int| 0 <= i < 8 && #[trigger] digits@[i] != digits@[0]
        },
{
    let all = digits@;
    assert((forall|i: int| 0 <= i < 8 ==> #[trigger] all[i] == i + 1) <==> all =~= seq![
        1u8, 2, 3, 4, 5, 6, 7, 8,
    ]);
    assert((forall|i: int| 0 <= i < 8 ==> #[trigger] all[i] == 8 - i) <==> all =~= seq![
        8u8, 7, 6, 5, 4, 3, 2, 1,
    ]);
    assert((forall|i: int| 0 <= i < 8 ==> #[trigger] all[i] == all[0]) <==> all =~= repeated(
        all[0],
    ));
    if exists|digit: u8| digit <= 9 && all == #[trigger] repeated(digit) {
        let digit = choose|digit: u8| digit <= 9 && all == #[trigger] repeated(digit);
        assert(all[0] == digit);
    }
}

impl View for Pin {
    type V = Seq<u8>;

    closed spec fn view(&self) -> Seq<u8> {
        self.digits@
    }
}

impl Pin {
    /// No pin that is not allowed can be made.
    #[verifier::type_invariant]
    pub closed spec fn wf(&self) -> bool {
        allowed(self@)
    }

    /// Makes a pin of eight digits.
    pub fn new(digits: [u8; 8]) -> (r: Result<Pin, PinError>)
        ensures
            r matches Ok(pin) ==> pin@ == digits@,
            r is Ok <==> allowed(digits@),
            r == Err::<Pin, PinError>(PinError::NotADigit) <==> !all_digits(digits@),
            r == Err::<Pin, PinError>(PinError::TooEasy) <==> too_easy(digits@),
    {
        let mut same: bool = true;
        let mut rising: bool = true;
        let mut falling: bool = true;
        let mut i: usize = 0;
        while i < 8
            invariant
                i <= 8,
                all_digits(digits@.take(i as int)),
                same <==> forall|j: int| 0 <= j < i ==> #[trigger] digits@[j] == digits@[0],
                rising <==> forall|j: int| 0 <= j < i ==> digits@[j] == j + 1,
                falling <==> forall|j: int| 0 <= j < i ==> digits@[j] == 8 - j,
            decreases 8 - i,
        {
            if digits[i] > 9 {
                proof {
                    assert(!all_digits(digits@));
                    assert(!too_easy(digits@)) by {
                        if too_easy(digits@) {
                            assert(digits@[i as int] <= 9);
                        }
                    }
                }
                return Err(PinError::NotADigit);
            }
            if digits[i] != digits[0] {
                same = false;
            }
            if digits[i] != i as u8 + 1 {
                rising = false;
            }
            if digits[i] != 8 - i as u8 {
                falling = false;
            }
            i = i + 1;
        }
        assert(digits@.take(8) =~= digits@);
        proof {
            assert(rising <==> digits@ =~= seq![1u8, 2, 3, 4, 5, 6, 7, 8]);
            assert(falling <==> digits@ =~= seq![8u8, 7, 6, 5, 4, 3, 2, 1]);
            assert(same <==> digits@ =~= repeated(digits@[0]));
            if exists|digit: u8| digit <= 9 && digits@ == #[trigger] repeated(digit) {
                let digit = choose|digit: u8| digit <= 9 && digits@ == #[trigger] repeated(digit);
                assert(digits@[0] == digit);
            }
        }
        if same || rising || falling {
            Err(PinError::TooEasy)
        } else {
            Ok(Pin { digits })
        }
    }

    /// The digits of the pin.
    pub fn digits(&self) -> (r: [u8; 8])
        ensures
            r@ == self@,
            allowed(r@),
    {
        proof {
            use_type_invariant(self);
        }
        self.digits
    }

    /// The pin read as one decimal number.
    pub fn code(&self) -> (code: u64)
        ensures
            code == setup_code(self@),
            code == self@[0] * 10_000_000 + self@[1] * 1_000_000 + self@[2] * 100_000 + self@[3]
                * 10_000 + self@[4] * 1_000 + self@[5] * 100 + self@[6] * 10 + self@[7],
            code < 100_000_000,
    {
        proof {
            use_type_invariant(self);
            lemma_eight_digits(self@);
            law_setup_code_is_the_decimal_number(self@);
        }
        let mut code: u64 = 0;
        let mut i: usize = 0;
        while i < 8
            invariant
                i <= 8,
                self.digits@.len() == 8,
                all_digits(self.digits@),
                code == setup_code(self.digits@.take(i as int)),
            decreases 8 - i,
        {
            proof {
                lemma_code_bound(self.digits@.take(i as int));
                assert(ten_to(i as nat) <= 10_000_000) by {
                    reveal_with_fuel(ten_to, 9);
                }
                assert(self.digits@.take(i + 1).drop_last() =~= self.digits@.take(i as int));
            }
            code = code * 10 + self.digits[i] as u64;
            i = i + 1;
        }
        assert(self.digits@.take(8) =~= self.digits@);
        code
    }
}

} // verus!
