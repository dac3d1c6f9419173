use wave_sim::field::{FieldError, Sim};
use wave_sim::ring::{minus_one, neighbors, plus_one};

const C: f32 = 1.0 * 0.1 / (2.0 * 1.0 * 1.0);

fn raise_f32(x: f32, p: f32, m: f32, s: f32) -> f32 {
    x + C * (p + m + 2.0 * s)
}

fn lower_f32(x: f32, p: f32, m: f32, s: f32) -> f32 {
    x - C * (p + m + 2.0 * s)
}

fn parts<T: Copy>(f: &Sim<T>) -> (Vec<T>, Vec<T>) {
    let n = f.len();
    let re = (0..n).map(|i| f.real_at(i)).collect();
    let im = (0..n).map(|i| f.imag_at(i)).collect();
    (re, im)
}

#[test]
fn zero_field_has_requested_size_and_zeros() {
    for n in [1usize, 2, 7, 1000] {
        let f = Sim::new(n, 0.0f32).unwrap();
        assert_eq!(f.len(), n);
        let (re, im) = parts(&f);
        assert_eq!(re.len(), n);
        assert_eq!(im.len(), n);
        assert!(re.iter().all(|v| *v == 0.0));
        assert!(im.iter().all(|v| *v == 0.0));
    }
}

#[test]
fn new_rejects_zero_size() {
    assert_eq!(Sim::new(0, 0.0f32).err(), Some(FieldError::InvalidSize));
}

#[test]
fn zero_field_is_fixed_point_of_many_steps() {
    let mut f = Sim::new(16, 0.0f32).unwrap();
    f.advance(250, &raise_f32, &lower_f32);
    let (re, im) = parts(&f);
    assert!(re.iter().all(|v| *v == 0.0));
    assert!(im.iter().all(|v| *v == 0.0));
    assert_eq!(f.len(), 16);
}

#[test]
fn one_step_on_eight_zeros_gives_zeros() {
    let mut f = Sim::new(8, 0.0f32).unwrap();
    f.step(&raise_f32, &lower_f32);
    let (re, im) = parts(&f);
    assert_eq!(re, vec![0.0f32; 8]);
    assert_eq!(im, vec![0.0f32; 8]);
}

#[test]
fn ring_neighbors_wrap_for_five() {
    assert_eq!(neighbors(0, 5), (4, 1));
    assert_eq!(neighbors(4, 5), (3, 0));
    assert_eq!(neighbors(2, 5), (1, 3));
    assert_eq!(plus_one(0, 1), 0);
    assert_eq!(minus_one(0, 1), 0);
}

#[test]
fn step_preserves_length() {
    for n in [1usize, 2, 3, 10, 101] {
        let mut f = Sim::new(n, 0.5f32).unwrap();
        f.step(&raise_f32, &lower_f32);
        assert_eq!(f.len(), n);
        let (re, im) = parts(&f);
        assert_eq!(re.len(), n);
        assert_eq!(im.len(), n);
    }
}

#[test]
fn step_update_order_on_integers() {
    let mut f = Sim::from_parts(vec![1i64, 2, 3], vec![0i64, 0, 0]).unwrap();
    let raise = |x: i64, p: i64, m: i64, s: i64| x + (p + m + 2 * s);
    let lower = |x: i64, p: i64, m: i64, s: i64| x - (p + m + 2 * s);
    f.step(&raise, &lower);
    let (re, im) = parts(&f);
    assert_eq!(im, vec![7, 8, 9]);
    assert_eq!(re, vec![-13, -21, -30]);
}

#[test]
fn advance_equals_repeated_steps() {
    let re = vec![0.3f32, -1.0, 2.0, 0.25, 0.0];
    let im = vec![0.0f32, 0.5, -0.5, 1.0, 0.125];
    let mut a = Sim::from_parts(re.clone(), im.clone()).unwrap();
    let mut b = Sim::from_parts(re, im).unwrap();
    a.advance(3, &raise_f32, &lower_f32);
    for _ in 0..3 {
        b.step(&raise_f32, &lower_f32);
    }
    assert_eq!(parts(&a), parts(&b));
}

#[test]
fn from_parts_errors() {
    assert_eq!(
        Sim::from_parts(vec![1.0f32, 2.0], vec![1.0f32]).err(),
        Some(FieldError::DimensionMismatch)
    );
    assert_eq!(
        Sim::<f32>::from_parts(vec![], vec![]).err(),
        Some(FieldError::InvalidSize)
    );
    let f = Sim::from_parts(vec![1.0f32], vec![2.0f32]).unwrap();
    assert_eq!(f.into_parts(), (vec![1.0f32], vec![2.0f32]));
}

fn packet(sigma: f32, x0: f32, k: f32, amp: f32, n: usize) -> Sim<f32> {
    let sample = |i: usize| {
        let x = ((i as f32 / n as f32) * 2. - 1.) * 0.1 * n as f32 / 2.;
        let c = amp * ((-(x - x0).powi(2)) / (2. * sigma.powi(2))).exp();
        let v = k * x;
        (c * v.cos(), c * v.sin())
    };
    Sim::tabulate(n, &sample).unwrap()
}

#[test]
fn tabulate_takes_each_sample() {
    let f = Sim::tabulate(4, &|i: usize| (i as i32 * 10, -(i as i32))).unwrap();
    assert_eq!(parts(&f), (vec![0, 10, 20, 30], vec![0, -1, -2, -3]));
    assert_eq!(
        Sim::tabulate(0, &|i: usize| (i, i)).err(),
        Some(FieldError::InvalidSize)
    );
}

#[test]
fn packet_peak_at_centre() {
    let n = 100;
    let f = packet(1.0, 0.0, 0.0, 1.5, n);
    // x is zero at index n / 2
    assert!((f.real_at(n / 2) - 1.5).abs() < 1e-5);
    assert!(f.imag_at(n / 2).abs() < 1e-5);
}

#[test]
fn superpose_matches_elementwise_sum() {
    let n = 64;
    let a = packet(0.6, 0.0, 1.0, 1.5, n);
    let b = packet(0.6, 1.0, 1.0, 1.5, n);
    let s = a.superpose(&b, &|x: f32, y: f32| x + y).unwrap();
    let (ar, ai) = parts(&a);
    let (br, bi) = parts(&b);
    let (sr, si) = parts(&s);
    for i in 0..n {
        assert_eq!(sr[i], ar[i] + br[i]);
        assert_eq!(si[i], ai[i] + bi[i]);
    }
    assert!(sr.iter().any(|v| *v != 0.0));
}

#[test]
fn superpose_rejects_unequal_sizes() {
    let a = Sim::new(3, 0.0f32).unwrap();
    let b = Sim::new(4, 0.0f32).unwrap();
    assert_eq!(
        a.superpose(&b, &|x: f32, y: f32| x + y).err(),
        Some(FieldError::DimensionMismatch)
    );
}
