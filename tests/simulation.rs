use rustler::contract::{bursttolerance, Contract};
use rustler::gcra::{increment, jittertolerance, Gcra};
use rustler::throttle::{Events, Throttle};
use rustler::ticks::{frequency, Ticks};

/// A fixed pseudo-random sequence, so that every run sees the same blocks.
struct Random {
    state: u64,
}

impl Random {
    fn new() -> Random {
        Random { state: 1 }
    }

    fn next(&mut self) -> usize {
        self.state = self.state.wrapping_mul(1103515245).wrapping_add(12345);
        ((self.state / 65536) % 32768) as usize
    }
}

/// A block size between 1 and `maximum` inclusive.
fn blocksize(random: &mut Random, maximum: usize) -> usize {
    let size: usize = (random.next() % maximum) + 1;
    assert!(size >= 1);
    assert!(size <= maximum);
    size
}

fn fabs(value: f64) -> f64 {
    if value < 0.0 {
        -value
    } else {
        value
    }
}

/// Drives a shaper and a policer on a synthetic time axis; returns the peak
/// and the sustained rate that the shaper let through.
fn simulate<T: Throttle>(shape: &mut T, police: &mut T, maximum: usize, iterations: usize) -> (f64, f64) {
    let frequency: f64 = frequency() as f64;
    let mut random = Random::new();
    let mut delay: Ticks;
    let mut now: Ticks = 0;
    let mut duration: Ticks = 0;
    let mut size: usize = 0;
    let mut total: u64 = 0;
    let mut peak: f64 = 0.0;
    for ii in 0..iterations {
        delay = shape.request(now);
        assert!(delay >= 0);
        now += delay;
        duration += delay;
        if ii > 0 && delay > 0 {
            let rate: f64 = (size as f64) * frequency / (delay as f64);
            if rate > peak {
                peak = rate;
            }
        }
        delay = shape.request(now);
        assert!(delay == 0);
        size = blocksize(&mut random, maximum);
        total += size as u64;
        assert!(shape.commits(size as Events));
        assert!(police.admits(now, size as Events));
    }
    delay = shape.get_expected();
    now += delay;
    duration += delay;
    assert!(shape.update(now));
    assert!(police.update(now));
    let sustained: f64 = (total as f64) * frequency / (duration as f64);
    println!("simulate: total={}B peak={}B/s sustained={}B/s", total, peak, sustained);
    (peak, sustained)
}

#[test]
fn test_400_gcra_test_gcra_300_variable() {
    let mut random = Random::new();
    let mut throttle: Gcra = Gcra::new();
    let increment: Ticks = 100;
    let limit: Ticks = 10;
    let mut size: Events;
    let mut now: Ticks = 0;
    let maximum: usize = 32768;
    println!("gcra={}", throttle.to_string());
    throttle.init(increment, limit, now);
    println!("gcra={}", throttle.to_string());
    /* SUSTAINED */
    now = 0;
    assert!(throttle.request(now) == 0);
    size = blocksize(&mut random, maximum) as Events;
    assert!(throttle.commits(size));
    now += size * increment;
    assert!(throttle.request(now) == 0);
    size = blocksize(&mut random, maximum) as Events;
    assert!(throttle.commits(size));
    now += size * increment;
    assert!(throttle.request(now) == 0);
    size = blocksize(&mut random, maximum) as Events;
    assert!(throttle.commits(size));
    now += size * increment;
    assert!(throttle.request(now) == 0);
    size = blocksize(&mut random, maximum) as Events;
    assert!(throttle.commits(size));
    now += size * increment;
    assert!(throttle.request(now) == 0);
    size = blocksize(&mut random, maximum) as Events;
    assert!(throttle.commits(size));
    now += size * increment;
    assert!(throttle.request(now) == 0);
    size = blocksize(&mut random, maximum) as Events;
    assert!(throttle.commits(size));
    now += size * increment;
    assert!(throttle.request(now) == 0);
    size = blocksize(&mut random, maximum) as Events;
    assert!(throttle.commits(size));
    now += size * increment;
    assert!(throttle.request(now) == 0);
    size = blocksize(&mut random, maximum) as Events;
    assert!(throttle.commits(size));
    now += size * increment;
    assert!(throttle.request(now) == 0);
    size = blocksize(&mut random, maximum) as Events;
    assert!(throttle.commits(size));
    now += size * increment;
    assert!(throttle.request(now) == 0);
    size = blocksize(&mut random, maximum) as Events;
    assert!(throttle.commits(size));
    now += size * increment;
    assert!(throttle.request(now) == 0);
    size = blocksize(&mut random, maximum) as Events;
    assert!(throttle.commits(size));
    /* CONSUME LIMIT */
    now += (size * increment) - 1;
    assert!(throttle.request(now) == 0);
    size = blocksize(&mut random, maximum) as Events;
    assert!(throttle.commits(size));
    now += (size * increment) - 1;
    assert!(throttle.request(now) == 0);
    size = blocksize(&mut random, maximum) as Events;
    assert!(throttle.commits(size));
    now += (size * increment) - 1;
    assert!(throttle.request(now) == 0);
    size = blocksize(&mut random, maximum) as Events;
    assert!(throttle.commits(size));
    now += (size * increment) - 1;
    assert!(throttle.request(now) == 0);
    size = blocksize(&mut random, maximum) as Events;
    assert!(throttle.commits(size));
    now += (size * increment) - 1;
    assert!(throttle.request(now) == 0);
    size = blocksize(&mut random, maximum) as Events;
    assert!(throttle.commits(size));
    now += (size * increment) - 1;
    assert!(throttle.request(now) == 0);
    size = blocksize(&mut random, maximum) as Events;
    assert!(throttle.commits(size));
    now += (size * increment) - 1;
    assert!(throttle.request(now) == 0);
    size = blocksize(&mut random, maximum) as Events;
    assert!(throttle.commits(size));
    now += (size * increment) - 1;
    assert!(throttle.request(now) == 0);
    size = blocksize(&mut random, maximum) as Events;
    assert!(throttle.commits(size));
    now += (size * increment) - 1;
    assert!(throttle.request(now) == 0);
    size = blocksize(&mut random, maximum) as Events;
    assert!(throttle.commits(size));
    now += (size * increment) - 1;
    assert!(throttle.request(now) == 0);
    size = blocksize(&mut random, maximum) as Events;
    assert!(throttle.commits(size));
    /* FILL */
    now += (size * increment) - 2;
    assert!(throttle.request(now) == 2);
    size = blocksize(&mut random, maximum) as Events;
    assert!(!throttle.commits(size));
    now += (size * increment) + 1;
    assert!(throttle.request(now) == 1);
    size = blocksize(&mut random, maximum) as Events;
    assert!(!throttle.commits(size));
    now += (size * increment) + 1;
    assert!(throttle.request(now) == 0);
    size = blocksize(&mut random, maximum) as Events;
    assert!(!throttle.commits(size));
    /* REQUEST, RE-REQUESTS, COMMIT */
    now += (size * increment) - 2;
    assert!(throttle.request(now) == 2);
    now += 1;
    assert!(throttle.request(now) == 1);
    now += 1;
    assert!(throttle.request(now) == 0);
    size = blocksize(&mut random, maximum) as Events;
    assert!(!throttle.commits(size));
    /* REQUEST, DELAY, ADMIT */
    now += (size * increment) - 2;
    assert!(throttle.request(now) == 2);
    now += 2;
    size = blocksize(&mut random, maximum) as Events;
    assert!(!throttle.admits(now, size));
    /* SUSTAINED AGAIN */
    now += (size * increment) + 10;
    assert!(throttle.request(now) == 0);
    size = blocksize(&mut random, maximum) as Events;
    assert!(throttle.commits(size));
    now += size * increment;
    assert!(throttle.request(now) == 0);
    size = blocksize(&mut random, maximum) as Events;
    assert!(throttle.commits(size));
    now += size * increment;
    assert!(throttle.request(now) == 0);
    size = blocksize(&mut random, maximum) as Events;
    assert!(throttle.commits(size));
    now += size * increment;
    assert!(throttle.request(now) == 0);
    size = blocksize(&mut random, maximum) as Events;
    assert!(throttle.commits(size));
    now += size * increment;
    assert!(throttle.request(now) == 0);
    size = blocksize(&mut random, maximum) as Events;
    assert!(throttle.commits(size));
    now += size * increment;
    assert!(throttle.request(now) == 0);
    size = blocksize(&mut random, maximum) as Events;
    assert!(throttle.commits(size));
    now += size * increment;
    assert!(throttle.request(now) == 0);
    size = blocksize(&mut random, maximum) as Events;
    assert!(throttle.commits(size));
    now += size * increment;
    assert!(throttle.request(now) == 0);
    size = blocksize(&mut random, maximum) as Events;
    assert!(throttle.commits(size));
    now += size * increment;
    assert!(throttle.request(now) == 0);
    size = blocksize(&mut random, maximum) as Events;
    assert!(throttle.commits(size));
    now += size * increment;
    assert!(throttle.request(now) == 0);
    size = blocksize(&mut random, maximum) as Events;
    assert!(throttle.commits(size));
    now += size * increment;
    assert!(throttle.request(now) == 0);
    size = blocksize(&mut random, maximum) as Events;
    assert!(throttle.commits(size));
    println!("gcra={}", throttle.to_string());
    throttle.init(increment, limit, now);
    println!("gcra={}", throttle.to_string());
}

#[test]
fn test_300_gcra_test_gcra_300_variable() {
    let mut random = Random::new();
    let mut throttle: Gcra = Gcra::new();
    let increment: Ticks = 100;
    let limit: Ticks = 10;
    let mut size: Events;
    let mut now: Ticks = 0;
    let maximum: Events = 32768;
    println!("gcra={}", throttle.to_string());
    throttle.init(increment, limit, now);
    println!("gcra={}", throttle.to_string());
    /* SUSTAINED */
    now = 0;
    assert!(throttle.request(now) == 0);
    size = blocksize(&mut random, maximum as usize) as Events;
    assert!(throttle.commits(size));
    now += size * increment;
    assert!(throttle.request(now) == 0);
    size = blocksize(&mut random, maximum as usize) as Events;
    assert!(throttle.commits(size));
    now += size * increment;
    assert!(throttle.request(now) == 0);
    size = blocksize(&mut random, maximum as usize) as Events;
    assert!(throttle.commits(size));
    now += size * increment;
    assert!(throttle.request(now) == 0);
    size = blocksize(&mut random, maximum as usize) as Events;
    assert!(throttle.commits(size));
    now += size * increment;
    assert!(throttle.request(now) == 0);
    size = blocksize(&mut random, maximum as usize) as Events;
    assert!(throttle.commits(size));
    now += size * increment;
    assert!(throttle.request(now) == 0);
    size = blocksize(&mut random, maximum as usize) as Events;
    assert!(throttle.commits(size));
    now += size * increment;
    assert!(throttle.request(now) == 0);
    size = blocksize(&mut random, maximum as usize) as Events;
    assert!(throttle.commits(size));
    now += size * increment;
    assert!(throttle.request(now) == 0);
    size = blocksize(&mut random, maximum as usize) as Events;
    assert!(throttle.commits(size));
    now += size * increment;
    assert!(throttle.request(now) == 0);
    size = blocksize(&mut random, maximum as usize) as Events;
    assert!(throttle.commits(size));
    now += size * increment;
    assert!(throttle.request(now) == 0);
    size = blocksize(&mut random, maximum as usize) as Events;
    assert!(throttle.commits(size));
    now += size * increment;
    assert!(throttle.request(now) == 0);
    size = blocksize(&mut random, maximum as usize) as Events;
    assert!(throttle.commits(size));
    /* CONSUME LIMIT */
    now += (size * increment) - 1;
    assert!(throttle.request(now) == 0);
    size = blocksize(&mut random, maximum as usize) as Events;
    assert!(throttle.commits(size));
    now += (size * increment) - 1;
    assert!(throttle.request(now) == 0);
    size = blocksize(&mut random, maximum as usize) as Events;
    assert!(throttle.commits(size));
    now += (size * increment) - 1;
    assert!(throttle.request(now) == 0);
    size = blocksize(&mut random, maximum as usize) as Events;
    assert!(throttle.commits(size));
    now += (size * increment) - 1;
    assert!(throttle.request(now) == 0);
    size = blocksize(&mut random, maximum as usize) as Events;
    assert!(throttle.commits(size));
    now += (size * increment) - 1;
    assert!(throttle.request(now) == 0);
    size = blocksize(&mut random, maximum as usize) as Events;
    assert!(throttle.commits(size));
    now += (size * increment) - 1;
    assert!(throttle.request(now) == 0);
    size = blocksize(&mut random, maximum as usize) as Events;
    assert!(throttle.commits(size));
    now += (size * increment) - 1;
    assert!(throttle.request(now) == 0);
    size = blocksize(&mut random, maximum as usize) as Events;
    assert!(throttle.commits(size));
    now += (size * increment) - 1;
    assert!(throttle.request(now) == 0);
    size = blocksize(&mut random, maximum as usize) as Events;
    assert!(throttle.commits(size));
    now += (size * increment) - 1;
    assert!(throttle.request(now) == 0);
    size = blocksize(&mut random, maximum as usize) as Events;
    assert!(throttle.commits(size));
    now += (size * increment) - 1;
    assert!(throttle.request(now) == 0);
    size = blocksize(&mut random, maximum as usize) as Events;
    assert!(throttle.commits(size));
    /* FILL */
    now += (size * increment) - 2;
    assert!(throttle.request(now) == 2);
    size = blocksize(&mut random, maximum as usize) as Events;
    assert!(!throttle.commits(size));
    now += (size * increment) + 1;
    assert!(throttle.request(now) == 1);
    size = blocksize(&mut random, maximum as usize) as Events;
    assert!(!throttle.commits(size));
    now += (size * increment) + 1;
    assert!(throttle.request(now) == 0);
    size = blocksize(&mut random, maximum as usize) as Events;
    assert!(!throttle.commits(size));
    /* REQUEST, RE-REQUESTS, COMMIT */
    now += (size * increment) - 2;
    assert!(throttle.request(now) == 2);
    now += 1;
    assert!(throttle.request(now) == 1);
    now += 1;
    assert!(throttle.request(now) == 0);
    size = blocksize(&mut random, maximum as usize) as Events;
    assert!(!throttle.commits(size));
    /* REQUEST, DELAY, ADMIT */
    now += (size * increment) - 2;
    assert!(throttle.request(now) == 2);
    now += 2;
    size = blocksize(&mut random, maximum as usize) as Events;
    assert!(!throttle.admits(now, size));
    /* SUSTAINED AGAIN */
    now += (size * increment) + 10;
    assert!(throttle.request(now) == 0);
    size = blocksize(&mut random, maximum as usize) as Events;
    assert!(throttle.commits(size));
    now += size * increment;
    assert!(throttle.request(now) == 0);
    size = blocksize(&mut random, maximum as usize) as Events;
    assert!(throttle.commits(size));
    now += size * increment;
    assert!(throttle.request(now) == 0);
    size = blocksize(&mut random, maximum as usize) as Events;
    assert!(throttle.commits(size));
    now += size * increment;
    assert!(throttle.request(now) == 0);
    size = blocksize(&mut random, maximum as usize) as Events;
    assert!(throttle.commits(size));
    now += size * increment;
    assert!(throttle.request(now) == 0);
    size = blocksize(&mut random, maximum as usize) as Events;
    assert!(throttle.commits(size));
    now += size * increment;
    assert!(throttle.request(now) == 0);
    size = blocksize(&mut random, maximum as usize) as Events;
    assert!(throttle.commits(size));
    now += size * increment;
    assert!(throttle.request(now) == 0);
    size = blocksize(&mut random, maximum as usize) as Events;
    assert!(throttle.commits(size));
    now += size * increment;
    assert!(throttle.request(now) == 0);
    size = blocksize(&mut random, maximum as usize) as Events;
    assert!(throttle.commits(size));
    now += size * increment;
    assert!(throttle.request(now) == 0);
    size = blocksize(&mut random, maximum as usize) as Events;
    assert!(throttle.commits(size));
    now += size * increment;
    assert!(throttle.request(now) == 0);
    size = blocksize(&mut random, maximum as usize) as Events;
    assert!(throttle.commits(size));
    now += size * increment;
    assert!(throttle.request(now) == 0);
    size = blocksize(&mut random, maximum as usize) as Events;
    assert!(throttle.commits(size));
    println!("gcra={}", throttle.to_string());
    throttle.init(increment, limit, now);
    println!("gcra={}", throttle.to_string());
}

#[test]
fn test_400_gcra_test_gcra_400_simulated() {
    let frequency: Ticks = frequency();
    let increment: Ticks = increment(1024, 1, frequency);
    let burstsize: usize = 32768;
    let limit: Ticks = jittertolerance(increment, burstsize as Events);
    let iterations: usize = 1000000;
    let now: Ticks = 0;
    let mut shaper = Gcra::new().init(increment, 0, now);
    let mut policer = Gcra::new().init(increment, limit, now);
    let result = simulate(& mut shaper, & mut policer, burstsize, iterations);
    assert!(fabs(result.0 - 1024.0) < (1024.0 / 100.0));
    assert!(fabs(result.1 - 1024.0) < (1024.0 / 100.0));
}

#[test]
fn test_300_gcra_test_gcra_400_simulated() {
    let frequency: Ticks = frequency();
    let increment: Ticks = increment(1024, 1, frequency);
    let burstsize: Events = 32768;
    let limit: Ticks = jittertolerance(increment, burstsize);
    let iterations: Events = 1000000;
    let now: Ticks = 0;
    let mut shaper: Gcra = Gcra::new();
    let mut policer: Gcra = Gcra::new();
    println!("shaper={}", shaper.to_string());
    println!("policer={}", policer.to_string());
    shaper.init(increment, 0, now);
    policer.init(increment, limit, now);
    println!("shaper={}", shaper.to_string());
    println!("policer={}", policer.to_string());
    simulate(&mut shaper, &mut policer, burstsize as usize, iterations as usize);
    println!("shaper={}", shaper.to_string());
    println!("policer={}", policer.to_string());
}

#[test]
fn test_500_contract_test_contract_400_simulated() {
    let frequency: Ticks = frequency();
    let peakincrement: Ticks = increment(2048, 1, frequency);
    let burstsize: usize = 512;
    let jittertolerance: Ticks = jittertolerance(peakincrement, burstsize as Events);
    let sustainedincrement: Ticks = increment(1024, 1, frequency);
    let bursttolerance: Ticks = bursttolerance(peakincrement, 0, sustainedincrement, burstsize as Events);
    let iterations: usize = 1000000;
    let now: Ticks = 0;
    let mut shaper = Contract::new().init(peakincrement, 0, sustainedincrement, bursttolerance, now);
    let mut policer = Contract::new().init(peakincrement, jittertolerance, sustainedincrement, bursttolerance, now);
    let pair = simulate(& mut shaper, & mut policer, burstsize, iterations);
    assert!(fabs(pair.0 - 2048.0) < (2048.0 / 100.0));
    assert!(fabs(pair.1 - 1024.0) < (1024.0 / 100.0));
}
