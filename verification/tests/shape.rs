use proof_kernel::arith::BinSquare;
use proof_kernel::binnat::BinNat;
use proof_kernel::logic::{Term, TypeFn};
use proof_kernel::shape::{dbl_injective, InjectFn, IsOddFn};

fn bin(n: u64) -> BinNat {
    BinNat::from_u64(n).unwrap()
}

fn dbl(n: BinNat) -> BinNat {
    BinNat::Dbl(Box::new(n))
}

fn dblp1(n: BinNat) -> BinNat {
    BinNat::DblP1(Box::new(n))
}

#[test]
fn parity_reads_the_outermost_constructor() {
    assert!(IsOddFn.eval(&BinNat::One));
    assert!(!IsOddFn.eval(&dbl(BinNat::One)));
    assert!(IsOddFn.eval(&dblp1(BinNat::One)));
    assert!(!IsOddFn.eval(&dbl(dblp1(BinNat::One))));
    assert!(IsOddFn.eval(&dblp1(dbl(BinNat::One))));
}

#[test]
fn parity_is_odd_exactly_on_odd_numbers() {
    for n in 1..=4000u64 {
        assert_eq!(IsOddFn.eval(&bin(n)), n % 2 == 1);
    }
}

#[test]
fn no_witness_between_an_odd_and_an_even_term() {
    for a in 0..60u64 {
        for b in 1..=60u64 {
            let odd = bin(2 * a + 1);
            let even = bin(2 * b);
            assert!(proof_kernel::logic::Eq::refl(odd.clone(), even.clone()).is_err());
            assert!(proof_kernel::logic::Eq::refl(even, odd).is_err());
        }
    }
}

#[test]
fn no_witness_between_an_odd_square_and_a_double() {
    for a in 0..40u64 {
        for b in 1..=40u64 {
            let odd_square = bin(2 * a + 1).square();
            let twice = dbl(bin(b));
            assert!(proof_kernel::logic::Eq::refl(odd_square, twice).is_err());
        }
    }
}

#[test]
fn extraction_recovers_the_child_of_a_double() {
    for n in 1..=500u64 {
        let x = bin(n);
        assert!(InjectFn.eval(&dbl(x.clone())).identical(&x));
    }
}

#[test]
fn extraction_gives_the_placeholder_elsewhere() {
    assert!(InjectFn.eval(&BinNat::One).identical(&BinNat::One));
    assert!(InjectFn.eval(&dblp1(bin(5))).identical(&BinNat::One));
    assert!(InjectFn.eval(&dblp1(BinNat::One)).identical(&BinNat::One));
}

#[test]
fn dbl_injective_strips_one_constructor_from_each_side() {
    for n in 1..=200u64 {
        let w = proof_kernel::logic::Eq::refl(dbl(bin(n)), dbl(bin(n))).ok().unwrap();
        let halves = dbl_injective(w);
        assert!(halves.lhs().identical(&bin(n)));
        assert!(halves.rhs().identical(&bin(n)));
    }
}

#[test]
fn doubles_are_identical_only_if_their_children_are() {
    for a in 1..=50u64 {
        for b in 1..=50u64 {
            let same = dbl(bin(a)).identical(&dbl(bin(b)));
            assert_eq!(same, bin(a).identical(&bin(b)));
            assert_eq!(same, a == b);
        }
    }
}
