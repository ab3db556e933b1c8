use ink::env::test::set_block_timestamp;
use ink::env::DefaultEnvironment;
use random_sample::sample::FLIP_MAX_VALUE;
use random_sample::RandomSample;

#[test]
fn default_works() {
    let random_sample = RandomSample::default();
    assert_eq!(random_sample.get(), 0);
}

#[test]
fn it_works() {
    let mut random_sample = RandomSample::default();
    for max_value in 1..=100 {
        let result = random_sample.get_pseudo_random(max_value);
        assert!(result <= max_value);
    }
}

#[test]
fn new_starts_at_zero() {
    let fresh = RandomSample::new();
    assert_eq!(fresh.salt(), 0);
    assert_eq!(fresh.get(), 0);
    let other = RandomSample::default();
    assert_eq!(other.salt(), 0);
    assert_eq!(other.get(), 0);
}

#[test]
fn from_parts_keeps_both_values() {
    let restored = RandomSample::from_parts(41, 17);
    assert_eq!(restored.salt(), 41);
    assert_eq!(restored.get(), 17);
}

#[test]
fn three_draws_at_one_timestamp() {
    let mut sampler = RandomSample::new();
    assert_eq!(sampler.salt(), 0);
    assert_eq!(sampler.get(), 0);

    let v1 = sampler.get_pseudo_random_at(1000, 99);
    assert_eq!(v1, 82);
    assert_eq!(sampler.salt(), 1);
    assert_eq!(sampler.get(), v1);

    let v2 = sampler.get_pseudo_random_at(1000, 99);
    assert_eq!(v2, 48);
    assert_eq!(sampler.salt(), 2);
    assert_eq!(sampler.get(), v2);

    let v3 = sampler.get_pseudo_random_at(1000, 0);
    assert_eq!(v3, 0);
    assert_eq!(sampler.salt(), 3);
    assert_eq!(sampler.get(), 0);
}

#[test]
fn three_draws_at_the_host_timestamp() {
    set_block_timestamp::<DefaultEnvironment>(1000);
    let mut sampler = RandomSample::new();
    assert_eq!(sampler.get_pseudo_random(99), 82);
    assert_eq!(sampler.salt(), 1);
    assert_eq!(sampler.get(), 82);
    assert_eq!(sampler.get_pseudo_random(99), 48);
    assert_eq!(sampler.salt(), 2);
    assert_eq!(sampler.get(), 48);
    assert_eq!(sampler.get_pseudo_random(0), 0);
    assert_eq!(sampler.salt(), 3);
    assert_eq!(sampler.get(), 0);
}

#[test]
fn draw_follows_the_host_timestamp() {
    let mut sampler = RandomSample::from_parts(1, 0);
    set_block_timestamp::<DefaultEnvironment>(0);
    assert_eq!(sampler.get_pseudo_random(255), 187);
    let mut sampler = RandomSample::from_parts(1, 0);
    set_block_timestamp::<DefaultEnvironment>(1000);
    assert_eq!(sampler.get_pseudo_random(255), 248);
}

#[test]
fn first_digest_byte_at_full_range() {
    let mut sampler = RandomSample::new();
    assert_eq!(sampler.get_pseudo_random_at(0, 255), 244);
    assert_eq!(sampler.get_pseudo_random_at(0, 255), 187);
    let mut sampler = RandomSample::new();
    assert_eq!(sampler.get_pseudo_random_at(1000, 255), 82);
    assert_eq!(sampler.get_pseudo_random_at(1000, 255), 248);
}

#[test]
fn timestamp_comes_before_salt() {
    let mut sampler = RandomSample::from_parts(0, 0);
    assert_eq!(sampler.get_pseudo_random_at(1, 255), 27);
    let mut sampler = RandomSample::from_parts(1, 0);
    assert_eq!(sampler.get_pseudo_random_at(0, 255), 187);
    let mut sampler = RandomSample::from_parts(0x1112_1314_1516_1718, 0);
    assert_eq!(sampler.get_pseudo_random_at(0x0102_0304_0506_0708, 255), 232);
}

#[test]
fn integers_are_hashed_big_endian() {
    let mut sampler = RandomSample::from_parts(0, 0);
    assert_eq!(sampler.get_pseudo_random_at(1 << 56, 255), 151);
    let mut sampler = RandomSample::from_parts(1 << 56, 0);
    assert_eq!(sampler.get_pseudo_random_at(0, 255), 200);
    let mut sampler = RandomSample::from_parts(0x0102_0304_0506_0708, 0);
    assert_eq!(sampler.get_pseudo_random_at(0, 255), 138);
    let mut sampler = RandomSample::from_parts(0, 0);
    assert_eq!(sampler.get_pseudo_random_at(0x0102_0304_0506_0708, 255), 114);
}

#[test]
fn same_inputs_same_value() {
    let mut a = RandomSample::from_parts(5, 3);
    let mut b = RandomSample::from_parts(5, 200);
    let va = a.get_pseudo_random_at(77, 50);
    let vb = b.get_pseudo_random_at(77, 50);
    assert_eq!(va, vb);
    assert_eq!(a.get(), b.get());
    assert_eq!(a.salt(), b.salt());
}

#[test]
fn values_stay_within_every_bound() {
    let mut sampler = RandomSample::new();
    for max_value in 0..=255u8 {
        let value = sampler.get_pseudo_random_at(1000, max_value);
        assert!(value <= max_value);
        assert_eq!(sampler.get(), value);
    }
    assert_eq!(sampler.salt(), 256);
}

#[test]
fn salt_counts_the_draws() {
    let mut sampler = RandomSample::from_parts(10, 0);
    let bounds: [u8; 5] = [0, 1, 99, 200, 255];
    let mut made: u64 = 0;
    for max_value in bounds {
        sampler.get_pseudo_random_at(made * 3, max_value);
        made += 1;
        assert_eq!(sampler.salt(), 10 + made);
    }
    sampler.flip();
    assert_eq!(sampler.salt(), 16);
}

#[test]
fn bound_zero_gives_zero_and_counts() {
    let mut sampler = RandomSample::from_parts(7, 9);
    assert_eq!(sampler.get_pseudo_random_at(123_456, 0), 0);
    assert_eq!(sampler.get(), 0);
    assert_eq!(sampler.salt(), 8);
    assert_eq!(sampler.get_pseudo_random(0), 0);
    assert_eq!(sampler.salt(), 9);
}

#[test]
fn last_salt_before_the_limit_is_drawn() {
    let mut sampler = RandomSample::from_parts(u64::MAX - 1, 0);
    let value = sampler.get_pseudo_random_at(0, 99);
    assert!(value <= 99);
    assert_eq!(sampler.salt(), u64::MAX);
}

#[test]
fn get_keeps_the_last_value() {
    let mut sampler = RandomSample::new();
    let value = sampler.get_pseudo_random_at(1000, 255);
    assert_eq!(sampler.get(), value);
    assert_eq!(sampler.get(), value);
    assert_eq!(sampler.salt(), 1);
}

#[test]
fn flip_draws_under_ninety_nine() {
    assert_eq!(FLIP_MAX_VALUE, 99);
    set_block_timestamp::<DefaultEnvironment>(1000);
    let mut sampler = RandomSample::new();
    sampler.flip();
    assert_eq!(sampler.get(), 82);
    assert_eq!(sampler.salt(), 1);
    sampler.flip();
    assert_eq!(sampler.get(), 48);
    assert_eq!(sampler.salt(), 2);
    set_block_timestamp::<DefaultEnvironment>(0);
    let mut sampler = RandomSample::new();
    sampler.flip();
    assert_eq!(sampler.get(), 44);
    sampler.flip();
    assert_eq!(sampler.get(), 87);
}

#[test]
fn absorb_reduces_the_first_digest_byte() {
    let mut digest = [0u8; 32];
    digest[0] = 130;
    digest[1] = 7;
    let mut sampler = RandomSample::new();
    assert_eq!(sampler.absorb(&digest, 99), 30);
    assert_eq!(sampler.get(), 30);
    assert_eq!(sampler.salt(), 1);
    assert_eq!(sampler.absorb(&digest, 255), 130);
    assert_eq!(sampler.absorb(&digest, 129), 0);
    assert_eq!(sampler.absorb(&digest, 130), 130);
    assert_eq!(sampler.absorb(&digest, 0), 0);
    assert_eq!(sampler.salt(), 5);
    digest[0] = 255;
    assert_eq!(sampler.absorb(&digest, 255), 255);
    assert_eq!(sampler.absorb(&digest, 254), 0);
    assert_eq!(sampler.absorb(&digest, 1), 1);
}
