use proof_kernel::arith::{BinAdd, BinSquare, BinSucc};
use proof_kernel::binnat::BinNat;
use proof_kernel::logic::Term;

fn bin(n: u64) -> BinNat {
    BinNat::from_u64(n).unwrap()
}

fn dbl(n: BinNat) -> BinNat {
    BinNat::Dbl(Box::new(n))
}

fn dblp1(n: BinNat) -> BinNat {
    BinNat::DblP1(Box::new(n))
}

#[test]
fn successor_of_one_is_two() {
    let two = BinNat::One.succ();
    assert!(two.identical(&dbl(BinNat::One)));
    assert_eq!(two.to_u64(), Some(2));
}

#[test]
fn successor_of_two_is_three() {
    let three = dbl(BinNat::One).succ();
    assert!(three.identical(&dblp1(BinNat::One)));
    assert_eq!(three.to_u64(), Some(3));
}

#[test]
fn successor_of_an_odd_term_carries() {
    assert!(dblp1(BinNat::One).succ().identical(&dbl(dbl(BinNat::One))));
    assert!(bin(7).succ().identical(&bin(8)));
    assert!(bin(11).succ().identical(&bin(12)));
}

#[test]
fn successor_adds_one() {
    for n in 1..=3000u64 {
        assert_eq!(bin(n).succ().to_u64(), Some(n + 1));
    }
}

#[test]
fn two_plus_three_is_five() {
    let sum = dbl(BinNat::One).add(&dblp1(BinNat::One));
    assert_eq!(sum.to_u64(), Some(5));
    assert!(sum.identical(&dblp1(dbl(BinNat::One))));
}

#[test]
fn addition_covers_the_nine_cases() {
    let one = BinNat::One;
    assert!(one.add(&one).identical(&bin(2)));
    assert!(one.add(&bin(4)).identical(&bin(5)));
    assert!(one.add(&bin(5)).identical(&bin(6)));
    assert!(bin(4).add(&one).identical(&bin(5)));
    assert!(bin(4).add(&bin(6)).identical(&bin(10)));
    assert!(bin(4).add(&bin(7)).identical(&bin(11)));
    assert!(bin(5).add(&one).identical(&bin(6)));
    assert!(bin(5).add(&bin(6)).identical(&bin(11)));
    assert!(bin(5).add(&bin(7)).identical(&bin(12)));
}

#[test]
fn addition_agrees_with_the_integers() {
    for a in 1..=80u64 {
        for b in 1..=80u64 {
            assert_eq!(bin(a).add(&bin(b)).to_u64(), Some(a + b));
        }
    }
}

#[test]
fn addition_is_commutative() {
    for a in 1..=40u64 {
        for b in 1..=40u64 {
            assert!(bin(a).add(&bin(b)).identical(&bin(b).add(&bin(a))));
        }
    }
}

#[test]
fn addition_is_associative() {
    for a in 1..=16u64 {
        for b in 1..=16u64 {
            for c in 1..=16u64 {
                let left = bin(a).add(&bin(b)).add(&bin(c));
                let right = bin(a).add(&bin(b).add(&bin(c)));
                assert!(left.identical(&right));
            }
        }
    }
}

#[test]
fn adding_one_is_the_successor() {
    for n in 1..=300u64 {
        assert!(bin(n).add(&BinNat::One).identical(&bin(n).succ()));
    }
}

#[test]
fn square_of_one_is_one() {
    assert!(BinNat::One.square().identical(&BinNat::One));
}

#[test]
fn square_of_two_is_four() {
    assert!(dbl(BinNat::One).square().identical(&dbl(dbl(BinNat::One))));
}

#[test]
fn square_of_three_is_nine() {
    let nine = dblp1(BinNat::One).square();
    assert_eq!(nine.to_u64(), Some(9));
    assert!(nine.identical(&dblp1(dbl(dbl(BinNat::One)))));
}

#[test]
fn square_agrees_with_the_integers() {
    for n in 1..=3000u64 {
        assert_eq!(bin(n).square().to_u64(), Some(n * n));
    }
}

#[test]
fn square_keeps_the_parity() {
    for n in 1..=500u64 {
        let even_shape = matches!(bin(n).square(), BinNat::Dbl(_));
        assert_eq!(even_shape, n % 2 == 0);
    }
}

#[test]
fn square_of_an_even_term_is_a_double_double() {
    for n in 1..=200u64 {
        match bin(2 * n).square() {
            BinNat::Dbl(half) => match *half {
                BinNat::Dbl(quarter) => assert_eq!(quarter.to_u64(), Some(n * n)),
                _ => panic!("the half of an even square is even"),
            },
            _ => panic!("an even term has an even square"),
        }
    }
}
