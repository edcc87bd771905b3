use ulam::error::ConfigError;
use ulam::generator::choice::create_generator;
use ulam::generator::choice::AnyGenerator;
use ulam::generator::drain;
use ulam::generator::fibonacci::FibonacciGenerator;
use ulam::generator::fibonacci::FibonaccisOrNotIterator;
use ulam::generator::prime1s::Prime1sGenerator;
use ulam::generator::prime3s::Prime3sGenerator;
use ulam::generator::prime7s::Prime7sGenerator;
use ulam::generator::primes::keep_ending;
use ulam::generator::primes::PrimesGenerator;
use ulam::generator::primes::PrimesOrNotIterator;
use ulam::generator::range_info;
use ulam::generator::squares::SquareGenerator;
use ulam::generator::squares::SquaresOrNotIterator;
use ulam::generator::times::TimesGenerator;
use ulam::generator::times::TimesOrNotIterator;
use ulam::generator::Generator;

#[test]
fn fibonacci_test_generate() {
    let mut ite = FibonacciGenerator::new(8, 1);
    assert_eq!(ite.next(), Some((1, true)));
    assert_eq!(ite.next(), Some((2, true)));
    assert_eq!(ite.next(), Some((3, true)));
    assert_eq!(ite.next(), Some((4, false)));
    assert_eq!(ite.next(), Some((5, true)));
    assert_eq!(ite.next(), Some((6, false)));
    assert_eq!(ite.next(), Some((7, false)));
    assert_eq!(ite.next(), Some((8, true)));
    assert_eq!(ite.next(), None);
}

#[test]
fn prime3s_test_generate() {
    let mut ite = Prime3sGenerator::new(5, 2);
    assert_eq!(ite.next(), Some((2, false)));
    assert_eq!(ite.next(), Some((3, true)));
    assert_eq!(ite.next(), Some((4, false)));
    assert_eq!(ite.next(), Some((5, false)));
    assert_eq!(ite.next(), None);
}

#[test]
fn prime7s_test_generate() {
    let mut ite = Prime7sGenerator::new(8, 4);
    assert_eq!(ite.next(), Some((4, false)));
    assert_eq!(ite.next(), Some((5, false)));
    assert_eq!(ite.next(), Some((6, false)));
    assert_eq!(ite.next(), Some((7, true)));
    assert_eq!(ite.next(), Some((8, false)));
    assert_eq!(ite.next(), None);
}

#[test]
fn primes_test_generate() {
    let mut ite = PrimesGenerator::new(10, 5);
    assert_eq!(ite.next(), Some((5, true)));
    assert_eq!(ite.next(), Some((6, false)));
    assert_eq!(ite.next(), Some((7, true)));
    assert_eq!(ite.next(), Some((8, false)));
    assert_eq!(ite.next(), Some((9, false)));
    assert_eq!(ite.next(), Some((10, false)));
    assert_eq!(ite.next(), None);
}

#[test]
fn test_generate() {
    let mut ite = PrimesGenerator::new(10, 5);
    assert_eq!(ite.next(), Some((5, true)));
    assert_eq!(ite.next(), Some((6, false)));
    assert_eq!(ite.next(), Some((7, true)));
    assert_eq!(ite.next(), Some((8, false)));
    assert_eq!(ite.next(), Some((9, false)));
    assert_eq!(ite.next(), Some((10, false)));
    assert_eq!(ite.next(), None);
}

#[test]
fn times_test_generate() {
    let mut ite = TimesGenerator::new(10, 2, 5).unwrap();
    assert_eq!(ite.next(), Some((5, false)));
    assert_eq!(ite.next(), Some((6, true)));
    assert_eq!(ite.next(), Some((7, false)));
    assert_eq!(ite.next(), Some((8, true)));
    assert_eq!(ite.next(), Some((9, false)));
    assert_eq!(ite.next(), Some((10, true)));
    assert_eq!(ite.next(), None);
}

#[test]
fn prime1s_test_generate() {
    let mut ite = Prime1sGenerator::new(11, 7);
    assert_eq!(ite.next(), Some((7, false)));
    assert_eq!(ite.next(), Some((8, false)));
    assert_eq!(ite.next(), Some((9, false)));
    assert_eq!(ite.next(), Some((10, false)));
    assert_eq!(ite.next(), Some((11, true)));
    assert_eq!(ite.next(), None);
}

#[test]
fn squares_test_generate() {
    let mut ite = SquareGenerator::new(10, 3);
    assert_eq!(ite.next(), Some((3, false)));
    assert_eq!(ite.next(), Some((4, true)));
    assert_eq!(ite.next(), Some((5, false)));
    assert_eq!(ite.next(), Some((6, false)));
    assert_eq!(ite.next(), Some((7, false)));
    assert_eq!(ite.next(), Some((8, false)));
    assert_eq!(ite.next(), Some((9, true)));
    assert_eq!(ite.next(), Some((10, false)));
    assert_eq!(ite.next(), None);
}

fn marked_of(items: &[(usize, bool)]) -> Vec<usize> {
    let mut marked = Vec::new();
    for item in items {
        if item.1 {
            marked.push(item.0);
        }
    }
    marked
}

fn has_no_divisor(n: usize) -> bool {
    if n < 2 {
        return false;
    }
    let mut d = 2;
    while d < n {
        if n % d == 0 {
            return false;
        }
        d += 1;
    }
    true
}

#[test]
fn primes_up_to_fifty_are_marked() {
    let mut gen = PrimesGenerator::new(50, 0);
    let items = drain(&mut gen);
    assert_eq!(items.len(), 51);
    assert_eq!(
        marked_of(&items),
        vec![2, 3, 5, 7, 11, 13, 17, 19, 23, 29, 31, 37, 41, 43, 47]
    );
}

#[test]
fn primes_are_the_numbers_without_divisors() {
    let mut gen = PrimesGenerator::new(2000, 0);
    let items = drain(&mut gen);
    assert_eq!(items.len(), 2001);
    for (k, item) in items.iter().enumerate() {
        assert_eq!(item.0, k);
        assert_eq!(item.1, has_no_divisor(k));
    }
}

#[test]
fn zero_and_one_are_not_prime() {
    let mut ite = PrimesOrNotIterator::new(2);
    assert_eq!(ite.next(), Some((0, false)));
    assert_eq!(ite.next(), Some((1, false)));
    assert_eq!(ite.next(), Some((2, true)));
    assert_eq!(ite.next(), None);
}

#[test]
fn primes_over_an_empty_upper_range() {
    let mut ite = PrimesGenerator::new(0, 0);
    assert_eq!(ite.next(), Some((0, false)));
    assert_eq!(ite.next(), None);
}

#[test]
fn ending_primes_are_primes_with_that_ending() {
    let mut primes = PrimesGenerator::new(300, 0);
    let all = drain(&mut primes);
    let mut ones = Prime1sGenerator::new(300, 0);
    let mut threes = Prime3sGenerator::new(300, 0);
    let mut sevens = Prime7sGenerator::new(300, 0);
    let ones = drain(&mut ones);
    let threes = drain(&mut threes);
    let sevens = drain(&mut sevens);
    assert_eq!(ones.len(), all.len());
    for k in 0..all.len() {
        let (index, prime) = all[k];
        assert_eq!(ones[k], (index, prime && index % 10 == 1));
        assert_eq!(threes[k], (index, prime && index % 10 == 3));
        assert_eq!(sevens[k], (index, prime && index % 10 == 7));
    }
    assert_eq!(marked_of(&ones)[..5], [11, 31, 41, 61, 71]);
    assert_eq!(marked_of(&threes)[..5], [3, 13, 23, 43, 53]);
    assert_eq!(marked_of(&sevens)[..5], [7, 17, 37, 47, 67]);
}

#[test]
fn keep_ending_takes_the_mark_from_other_endings() {
    assert_eq!(keep_ending(Some((13, true)), 3), Some((13, true)));
    assert_eq!(keep_ending(Some((13, true)), 7), Some((13, false)));
    assert_eq!(keep_ending(Some((33, false)), 3), Some((33, false)));
    assert_eq!(keep_ending(None, 3), None);
}

#[test]
fn fibonacci_numbers_up_to_a_hundred() {
    let mut gen = FibonacciGenerator::new(100, 0);
    let items = drain(&mut gen);
    assert_eq!(marked_of(&items), vec![0, 1, 2, 3, 5, 8, 13, 21, 34, 55, 89]);
}

#[test]
fn fibonacci_iterator_marks_zero_and_one() {
    let mut ite = FibonaccisOrNotIterator::new(1);
    assert_eq!(ite.next(), Some((0, true)));
    assert_eq!(ite.next(), Some((1, true)));
    assert_eq!(ite.next(), None);
    assert_eq!(ite.next(), None);
}

#[test]
fn fibonacci_with_skip_beyond_a_term() {
    let mut ite = FibonacciGenerator::new(60, 54);
    assert_eq!(ite.next(), Some((54, false)));
    assert_eq!(ite.next(), Some((55, true)));
    assert_eq!(ite.next(), Some((56, false)));
}

#[test]
fn squares_up_to_a_hundred() {
    let mut gen = SquareGenerator::new(100, 0);
    let items = drain(&mut gen);
    assert_eq!(marked_of(&items), vec![0, 1, 4, 9, 16, 25, 36, 49, 64, 81, 100]);
}

#[test]
fn squares_iterator_marks_zero_and_one() {
    let mut ite = SquaresOrNotIterator::new(2);
    assert_eq!(ite.next(), Some((0, true)));
    assert_eq!(ite.next(), Some((1, true)));
    assert_eq!(ite.next(), Some((2, false)));
    assert_eq!(ite.next(), None);
}

#[test]
fn multiples_are_the_indices_without_remainder() {
    for base in 1..12usize {
        let mut gen = TimesGenerator::new(200, base, 0).unwrap();
        let items = drain(&mut gen);
        assert_eq!(items.len(), 201);
        for (k, item) in items.iter().enumerate() {
            assert_eq!(*item, (k, k % base == 0));
        }
    }
}

#[test]
fn base_zero_is_refused_at_construction() {
    assert!(matches!(TimesGenerator::new(10, 0, 0), Err(ConfigError::ZeroBase)));
    assert!(matches!(TimesOrNotIterator::new(10, 0), Err(ConfigError::ZeroBase)));
    assert!(matches!(TimesGenerator::from_gp("0:10:0"), Err(ConfigError::ZeroBase)));
    assert!(matches!(create_generator("times", "0:10:0"), Err(ConfigError::ZeroBase)));
}

#[test]
fn times_iterator_starts_at_zero() {
    let mut ite = TimesOrNotIterator::new(3, 3).unwrap();
    assert_eq!(ite.next(), Some((0, true)));
    assert_eq!(ite.next(), Some((1, false)));
    assert_eq!(ite.next(), Some((2, false)));
    assert_eq!(ite.next(), Some((3, true)));
    assert_eq!(ite.next(), None);
}

#[test]
fn same_parameters_give_same_items() {
    let mut a = PrimesGenerator::new(500, 17);
    let mut b = PrimesGenerator::new(500, 17);
    assert_eq!(drain(&mut a), drain(&mut b));
    let mut a = FibonacciGenerator::new(500, 3);
    let mut b = FibonacciGenerator::new(500, 3);
    assert_eq!(drain(&mut a), drain(&mut b));
    let mut a = SquareGenerator::new(500, 3);
    let mut b = SquareGenerator::new(500, 3);
    assert_eq!(drain(&mut a), drain(&mut b));
    let mut a = TimesGenerator::new(500, 7, 3).unwrap();
    let mut b = TimesGenerator::new(500, 7, 3).unwrap();
    assert_eq!(drain(&mut a), drain(&mut b));
}

#[test]
fn interleaved_generators_do_not_disturb_each_other() {
    let mut a = PrimesGenerator::new(30, 0);
    let mut b = PrimesGenerator::new(30, 0);
    let mut from_a = Vec::new();
    let mut from_b = Vec::new();
    for _ in 0..10 {
        from_a.push(a.next());
    }
    for _ in 0..31 {
        from_b.push(b.next());
    }
    for _ in 0..21 {
        from_a.push(a.next());
    }
    assert_eq!(from_a, from_b);
}

#[test]
fn exhausted_generators_stay_exhausted() {
    let mut primes = PrimesGenerator::new(3, 0);
    let mut fibonacci = FibonacciGenerator::new(3, 0);
    let mut squares = SquareGenerator::new(3, 0);
    let mut times = TimesGenerator::new(3, 2, 0).unwrap();
    let mut ones = Prime1sGenerator::new(3, 0);
    assert_eq!(drain(&mut primes).len(), 4);
    assert_eq!(drain(&mut fibonacci).len(), 4);
    assert_eq!(drain(&mut squares).len(), 4);
    assert_eq!(drain(&mut times).len(), 4);
    assert_eq!(drain(&mut ones).len(), 4);
    for _ in 0..5 {
        assert_eq!(primes.next(), None);
        assert_eq!(fibonacci.next(), None);
        assert_eq!(squares.next(), None);
        assert_eq!(times.next(), None);
        assert_eq!(ones.next(), None);
    }
}

#[test]
fn data_num_at_the_last_index_of_the_machine() {
    let mut times = TimesGenerator::new(usize::MAX, 5, usize::MAX).unwrap();
    assert_eq!(times.data_num(), 0);
}

#[test]
fn skipping_is_discarding() {
    for skip in [0usize, 1, 2, 5, 29, 30, 31, 32, 100] {
        let mut whole = PrimesGenerator::new(30, 0);
        let mut skipped = PrimesGenerator::new(30, skip);
        let all = drain(&mut whole);
        let rest = drain(&mut skipped);
        let expected: Vec<(usize, bool)> = all.iter().skip(skip).cloned().collect();
        assert_eq!(rest, expected);

        let mut whole = FibonacciGenerator::new(30, 0);
        let mut skipped = FibonacciGenerator::new(30, skip);
        let all = drain(&mut whole);
        let rest = drain(&mut skipped);
        let expected: Vec<(usize, bool)> = all.iter().skip(skip).cloned().collect();
        assert_eq!(rest, expected);

        let mut whole = SquareGenerator::new(30, 0);
        let mut skipped = SquareGenerator::new(30, skip);
        let all = drain(&mut whole);
        let rest = drain(&mut skipped);
        let expected: Vec<(usize, bool)> = all.iter().skip(skip).cloned().collect();
        assert_eq!(rest, expected);

        let mut whole = TimesGenerator::new(30, 4, 0).unwrap();
        let mut skipped = TimesGenerator::new(30, 4, skip).unwrap();
        let all = drain(&mut whole);
        let rest = drain(&mut skipped);
        let expected: Vec<(usize, bool)> = all.iter().skip(skip).cloned().collect();
        assert_eq!(rest, expected);
    }
}

#[test]
fn skip_beyond_the_last_index_yields_nothing() {
    let mut gen = PrimesGenerator::new(5, 10);
    assert_eq!(gen.next(), None);
    assert_eq!(gen.next(), None);
    let mut gen = PrimesGenerator::new(5, 6);
    assert_eq!(gen.next(), None);
}

#[test]
fn data_num_is_the_distance_from_first_to_last() {
    assert_eq!(PrimesGenerator::new(10, 5).data_num(), 5);
    assert_eq!(PrimesGenerator::new(10, 0).data_num(), 10);
    assert_eq!(PrimesGenerator::new(10, 10).data_num(), 0);
    assert_eq!(PrimesGenerator::new(5, 10).data_num(), 0);
    assert_eq!(FibonacciGenerator::new(100, 1).data_num(), 99);
    assert_eq!(SquareGenerator::new(100, 30).data_num(), 70);
    assert_eq!(TimesGenerator::new(100, 3, 40).unwrap().data_num(), 60);
    assert_eq!(Prime1sGenerator::new(11, 7).data_num(), 4);
    assert_eq!(Prime3sGenerator::new(11, 7).data_num(), 4);
    assert_eq!(Prime7sGenerator::new(11, 7).data_num(), 4);
}

#[test]
fn data_num_does_not_change_while_driven() {
    let mut gen = PrimesGenerator::new(10, 5);
    gen.next();
    gen.next();
    assert_eq!(gen.data_num(), 5);
    drain(&mut gen);
    assert_eq!(gen.data_num(), 5);
}

#[test]
fn primes_getters() {
    let gen = PrimesGenerator::new(10, 5);
    assert_eq!(gen.max(), 10);
    assert_eq!(gen.skip(), 5);
}

#[test]
fn generator_info_names_kind_and_range() {
    assert_eq!(
        PrimesGenerator::new(1000, 1).generator_info(),
        "generator = primes, from = 1, to = 1000"
    );
    assert_eq!(
        Prime1sGenerator::new(120, 0).generator_info(),
        "generator = primes1, from = 0, to = 120"
    );
    assert_eq!(
        Prime3sGenerator::new(120, 10).generator_info(),
        "generator = primes3, from = 10, to = 120"
    );
    assert_eq!(
        Prime7sGenerator::new(9, 8).generator_info(),
        "generator = primes7, from = 8, to = 9"
    );
    assert_eq!(
        SquareGenerator::new(10000, 0).generator_info(),
        "generator = suares, from = 0, to = 10000"
    );
    assert_eq!(
        FibonacciGenerator::new(34, 21).generator_info(),
        "generator = fibonacci, from = 21, to = 34"
    );
    assert_eq!(
        TimesGenerator::new(10000, 7, 3).unwrap().generator_info(),
        "generator = times, from = 3, to = 10000 times = 7"
    );
    assert_eq!(range_info("any", 0, 18446744073709551615), "generator = any, from = 0, to = 18446744073709551615");
}

#[test]
fn parameter_strings_give_first_and_last_index() {
    let gen = PrimesGenerator::from_gp("5:10").unwrap();
    assert_eq!((gen.skip(), gen.max()), (5, 10));
    let gen = PrimesGenerator::from_gp("5").unwrap();
    assert_eq!((gen.skip(), gen.max()), (5, 1000));
    let gen = PrimesGenerator::from_gp("+5:+10").unwrap();
    assert_eq!((gen.skip(), gen.max()), (5, 10));
    let gen = PrimesGenerator::from_gp("007:0010:x:y").unwrap();
    assert_eq!((gen.skip(), gen.max()), (7, 10));
    let mut gen = PrimesGenerator::from_gp("5:7").unwrap();
    assert_eq!(drain(&mut gen), vec![(5, true), (6, false), (7, true)]);
}

#[test]
fn parameter_strings_have_defaults_by_kind() {
    let mut gen = FibonacciGenerator::from_gp("9999").unwrap();
    assert_eq!(drain(&mut gen), vec![(9999, false), (10000, false)]);
    let mut gen = SquareGenerator::from_gp("9999").unwrap();
    assert_eq!(drain(&mut gen), vec![(9999, false), (10000, true)]);
    let mut gen = TimesGenerator::from_gp("9999").unwrap();
    assert_eq!(drain(&mut gen), vec![(9999, false), (10000, true)]);
    let mut gen = TimesGenerator::from_gp("9:12").unwrap();
    assert_eq!(drain(&mut gen), vec![(9, false), (10, true), (11, false), (12, true)]);
    let mut gen = TimesGenerator::from_gp("9:12:3").unwrap();
    assert_eq!(drain(&mut gen), vec![(9, true), (10, false), (11, false), (12, true)]);
    let mut gen = Prime1sGenerator::from_gp("998").unwrap();
    assert_eq!(drain(&mut gen), vec![(998, false), (999, false), (1000, false)]);
    let mut gen = Prime3sGenerator::from_gp("1:3").unwrap();
    assert_eq!(drain(&mut gen), vec![(1, false), (2, false), (3, true)]);
    let mut gen = Prime7sGenerator::from_gp("6:7").unwrap();
    assert_eq!(drain(&mut gen), vec![(6, false), (7, true)]);
}

#[test]
fn fields_that_are_no_numbers_are_refused() {
    for gp in ["", "a", "1:b", ":", "1:", ":1", "-1:5", "1.5", " 1", "1 ", "+", "1:+", "18446744073709551616000"] {
        assert!(matches!(PrimesGenerator::from_gp(gp), Err(ConfigError::InvalidParameter)));
        assert!(matches!(Prime1sGenerator::from_gp(gp), Err(ConfigError::InvalidParameter)));
        assert!(matches!(Prime3sGenerator::from_gp(gp), Err(ConfigError::InvalidParameter)));
        assert!(matches!(Prime7sGenerator::from_gp(gp), Err(ConfigError::InvalidParameter)));
        assert!(matches!(FibonacciGenerator::from_gp(gp), Err(ConfigError::InvalidParameter)));
        assert!(matches!(SquareGenerator::from_gp(gp), Err(ConfigError::InvalidParameter)));
        assert!(matches!(TimesGenerator::from_gp(gp), Err(ConfigError::InvalidParameter)));
    }
    assert!(matches!(TimesGenerator::from_gp("1:2:x"), Err(ConfigError::InvalidParameter)));
    assert!(matches!(TimesGenerator::from_gp("x:2:0"), Err(ConfigError::InvalidParameter)));
    assert!(TimesGenerator::from_gp("1:2:3:x").is_ok());
}

#[test]
fn generators_are_chosen_by_name() {
    assert!(matches!(create_generator("fibonacci", "0:5"), Ok(AnyGenerator::Fibonacci(_))));
    assert!(matches!(create_generator("primes", "0:5"), Ok(AnyGenerator::Primes(_))));
    assert!(matches!(create_generator("prime1s", "0:5"), Ok(AnyGenerator::Prime1s(_))));
    assert!(matches!(create_generator("prime3s", "0:5"), Ok(AnyGenerator::Prime3s(_))));
    assert!(matches!(create_generator("prime7s", "0:5"), Ok(AnyGenerator::Prime7s(_))));
    assert!(matches!(create_generator("times", "0:5"), Ok(AnyGenerator::Times(_))));
    assert!(matches!(create_generator("squares", "0:5"), Ok(AnyGenerator::Squares(_))));
    assert!(matches!(create_generator("cubes", "0:5"), Err(ConfigError::UnknownVariant)));
    assert!(matches!(create_generator("", "0:5"), Err(ConfigError::UnknownVariant)));
    assert!(matches!(create_generator("Primes", "x"), Err(ConfigError::UnknownVariant)));
    assert!(matches!(create_generator("primes", "x"), Err(ConfigError::InvalidParameter)));
}

#[test]
fn chosen_generators_behave_as_their_kind() {
    let mut gen = create_generator("primes", "5:10").unwrap();
    assert_eq!(gen.data_num(), 5);
    assert_eq!(gen.generator_info(), "generator = primes, from = 5, to = 10");
    assert_eq!(
        drain(&mut gen),
        vec![(5, true), (6, false), (7, true), (8, false), (9, false), (10, false)]
    );
    assert_eq!(gen.next(), None);
    let mut gen = create_generator("times", "1:6:3").unwrap();
    assert_eq!(gen.generator_info(), "generator = times, from = 1, to = 6 times = 3");
    assert_eq!(
        drain(&mut gen),
        vec![(1, false), (2, false), (3, true), (4, false), (5, false), (6, true)]
    );
    let mut gen = create_generator("squares", "3:4").unwrap();
    assert_eq!(drain(&mut gen), vec![(3, false), (4, true)]);
    let mut gen = create_generator("fibonacci", "3:4").unwrap();
    assert_eq!(drain(&mut gen), vec![(3, true), (4, false)]);
    let mut gen = create_generator("prime1s", "11:11").unwrap();
    assert_eq!(drain(&mut gen), vec![(11, true)]);
    let mut gen = create_generator("prime3s", "13:13").unwrap();
    assert_eq!(drain(&mut gen), vec![(13, true)]);
    let mut gen = create_generator("prime7s", "17:17").unwrap();
    assert_eq!(drain(&mut gen), vec![(17, true)]);
}
