use proof_kernel::binnat::BinNat;
use proof_kernel::induction::{Accessible, Denotation, InductionScheme};

fn bin(n: u64) -> BinNat {
    BinNat::from_u64(n).unwrap()
}

/// Counts the constructors around the innermost `One`.
struct Height;

impl InductionScheme for Height {
    type Result = u32;

    fn one(&self) -> u32 {
        0
    }

    fn dbl(&self, _n: BinNat, ih: u32) -> u32 {
        ih + 1
    }

    fn dblp1(&self, _n: BinNat, ih: u32) -> u32 {
        ih + 1
    }

    fn case_one(&self) -> u32 {
        0
    }

    fn case_dbl(&self, _n: &BinNat, ih: u32) -> u32 {
        ih + 1
    }

    fn case_dblp1(&self, _n: &BinNat, ih: u32) -> u32 {
        ih + 1
    }
}

/// Writes the binary digits, most significant first.
struct Digits;

impl InductionScheme for Digits {
    type Result = String;

    fn one(&self) -> String {
        String::from("1")
    }

    fn dbl(&self, _n: BinNat, ih: String) -> String {
        format!("{}0", ih)
    }

    fn dblp1(&self, _n: BinNat, ih: String) -> String {
        format!("{}1", ih)
    }

    fn case_one(&self) -> String {
        String::from("1")
    }

    fn case_dbl(&self, _n: &BinNat, ih: String) -> String {
        format!("{}0", ih)
    }

    fn case_dblp1(&self, _n: &BinNat, ih: String) -> String {
        format!("{}1", ih)
    }
}

#[test]
fn induct_counts_the_constructors() {
    assert_eq!(BinNat::One.induct(&Height), 0);
    assert_eq!(bin(2).induct(&Height), 1);
    assert_eq!(bin(3).induct(&Height), 1);
    assert_eq!(bin(6).induct(&Height), 2);
    assert_eq!(bin(1000).induct(&Height), 9);
}

#[test]
fn induct_runs_from_the_inside_out() {
    assert_eq!(BinNat::One.induct(&Digits), "1");
    assert_eq!(bin(6).induct(&Digits), "110");
    assert_eq!(bin(11).induct(&Digits), "1011");
    assert_eq!(bin(1000).induct(&Digits), format!("{:b}", 1000));
}

#[test]
fn induct_hands_each_step_the_child() {
    struct Children;
    impl InductionScheme for Children {
        type Result = Vec<u64>;

        fn one(&self) -> Vec<u64> {
            vec![]
        }

        fn dbl(&self, n: BinNat, ih: Vec<u64>) -> Vec<u64> {
            self.case_dbl(&n, ih)
        }

        fn dblp1(&self, n: BinNat, ih: Vec<u64>) -> Vec<u64> {
            self.case_dblp1(&n, ih)
        }

        fn case_one(&self) -> Vec<u64> {
            vec![]
        }

        fn case_dbl(&self, n: &BinNat, mut ih: Vec<u64>) -> Vec<u64> {
            ih.push(n.to_u64().unwrap());
            ih
        }

        fn case_dblp1(&self, n: &BinNat, mut ih: Vec<u64>) -> Vec<u64> {
            ih.push(n.to_u64().unwrap());
            ih
        }
    }
    assert_eq!(bin(13).induct(&Children), vec![1, 3, 6]);
}

#[test]
fn denotation_gives_the_number() {
    assert_eq!(BinNat::One.induct(&Denotation), Some(1));
    assert_eq!(bin(6).induct(&Denotation), Some(6));
    for n in 1..=2000u64 {
        assert_eq!(bin(n).induct(&Denotation), Some(n));
    }
}

#[test]
fn denotation_stops_at_64_bits() {
    assert_eq!(bin(u64::MAX).induct(&Denotation), Some(u64::MAX));
    let too_big = BinNat::Dbl(Box::new(bin(u64::MAX)));
    assert_eq!(too_big.induct(&Denotation), None);
    let just_fits = BinNat::DblP1(Box::new(bin(u64::MAX / 2)));
    assert_eq!(just_fits.induct(&Denotation), Some(u64::MAX));
    let odd_too_big = BinNat::DblP1(Box::new(bin(u64::MAX / 2 + 1)));
    assert_eq!(odd_too_big.induct(&Denotation), None);
    let far_too_big = BinNat::DblP1(Box::new(BinNat::Dbl(Box::new(bin(u64::MAX)))));
    assert_eq!(far_too_big.induct(&Denotation), None);
}
