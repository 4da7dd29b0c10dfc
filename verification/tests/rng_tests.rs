use jsongen::json::{rand, Xorshift};
use jsongen::rng::Rng;
use jsongen::source::{Replay, Source};

#[test]
fn equal_seeds_give_equal_streams() {
    let mut a = Rng::new(7);
    let mut b = Rng::new(7);
    for _ in 0..32 {
        assert_eq!(a.next(), b.next());
    }
}

#[test]
fn different_seeds_give_different_streams() {
    let mut a = Rng::new(1);
    let mut b = Rng::new(2);
    assert_ne!(a.next(), b.next());
}

#[test]
fn first_draws_after_seed_one() {
    let mut rng = Rng::new(1);
    assert_eq!(rng.next(), 13390082407361419185);
    assert_eq!(rng.next(), 7243888581411023596);
    assert_eq!(rng.next(), 15347022697818315271);
}

#[test]
fn first_draws_after_another_seed() {
    let mut rng = Rng::new(0x1234);
    assert_eq!(rng.next(), 10895561018509840709);
    assert_eq!(rng.next(), 17425878560600052239);
    assert_eq!(rng.next(), 17545742135127103159);
}

#[test]
fn next_is_the_upper_half_of_the_product() {
    let mut state: u128 = 99;
    for _ in 0..100 {
        state = state.wrapping_mul(0xda942042e4dd58b5);
    }
    let mut rng = Rng::new(99);
    for _ in 0..10 {
        state = state.wrapping_mul(0xda942042e4dd58b5);
        assert_eq!(rng.next(), (state >> 64) as usize);
    }
}

#[test]
fn seed_zero_draws_zero_forever() {
    let mut rng = Rng::new(0);
    for _ in 0..8 {
        assert_eq!(rng.next(), 0);
    }
}

#[test]
fn draw_of_a_generator_is_its_next() {
    let mut a = Rng::new(5);
    let mut b = Rng::new(5);
    for _ in 0..8 {
        assert_eq!(a.draw(), b.next());
    }
}

#[test]
fn xorshift_from_one() {
    let mut state = Xorshift { seed: 1 };
    assert_eq!(rand(&mut state), 72066390130958337);
    assert_eq!(state.seed, 72066390130958337);
    assert_eq!(rand(&mut state), 4503599627371009);
    assert_eq!(rand(&mut state), 72347899471602209);
}

#[test]
fn xorshift_from_a_wide_seed() {
    let mut state = Xorshift { seed: 0x0123456789abcdef };
    assert_eq!(rand(&mut state), 10601650085349512676);
    assert_eq!(state.seed, 10601650085349512676);
}

#[test]
fn xorshift_draw_is_rand() {
    let mut a = Xorshift { seed: 42 };
    let mut b = Xorshift { seed: 42 };
    for _ in 0..8 {
        assert_eq!(a.draw(), rand(&mut b));
    }
}

#[test]
fn replay_goes_round() {
    let mut src = Replay::new(vec![3, 1, 4]);
    let drawn: Vec<usize> = (0..7).map(|_| src.draw()).collect();
    assert_eq!(drawn, vec![3, 1, 4, 3, 1, 4, 3]);
}

#[test]
fn replay_of_nothing_draws_zero() {
    let mut src = Replay::new(vec![]);
    assert_eq!(src.draw(), 0);
    assert_eq!(src.draw(), 0);
}

#[test]
fn replay_of_one_number_repeats_it() {
    let mut src = Replay::new(vec![9]);
    assert_eq!(src.draw(), 9);
    assert_eq!(src.draw(), 9);
}
