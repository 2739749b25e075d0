//! Thirty-two bit floats, four to a vector.

use simd::align::Partition;
use simd::traits::{Simd, Vector};
use simd::{can_hold, cast, cast_at, partition, sum, sum_at};

#[allow(non_camel_case_types)]
#[derive(Clone, Copy, Debug, PartialEq)]
struct f32x4(f32, f32, f32, f32);

impl Simd<f32x4> for f32 {
    fn add(self, rhs: f32) -> f32 {
        self + rhs
    }

    fn sub(self, rhs: f32) -> f32 {
        self - rhs
    }

    fn mul(self, rhs: f32) -> f32 {
        self * rhs
    }

    fn div(self, rhs: f32) -> f32 {
        self / rhs
    }
}

impl Vector for f32x4 {
    type Elem = f32;

    const WIDTH: usize = 4;

    fn load(lanes: &[f32]) -> f32x4 {
        assert_eq!(lanes.len(), 4);
        f32x4(lanes[0], lanes[1], lanes[2], lanes[3])
    }

    fn from_elem(elem: f32) -> f32x4 {
        f32x4(elem, elem, elem, elem)
    }

    fn zeroed() -> f32x4 {
        f32x4(0., 0., 0., 0.)
    }

    fn map<F>(&self, mut f: F) -> f32x4
    where
        F: FnMut(f32) -> f32,
    {
        f32x4(f(self.0), f(self.1), f(self.2), f(self.3))
    }

    fn sum(&self) -> f32 {
        self.0 + self.1 + self.2 + self.3
    }

    fn add(self, rhs: f32x4) -> f32x4 {
        f32x4(self.0 + rhs.0, self.1 + rhs.1, self.2 + rhs.2, self.3 + rhs.3)
    }

    fn sub(self, rhs: f32x4) -> f32x4 {
        f32x4(self.0 - rhs.0, self.1 - rhs.1, self.2 - rhs.2, self.3 - rhs.3)
    }

    fn mul(self, rhs: f32x4) -> f32x4 {
        f32x4(self.0 * rhs.0, self.1 * rhs.1, self.2 * rhs.2, self.3 * rhs.3)
    }

    fn div(self, rhs: f32x4) -> f32x4 {
        f32x4(self.0 / rhs.0, self.1 / rhs.1, self.2 / rhs.2, self.3 / rhs.3)
    }
}

/// An address at which a vector of four floats may lie.
const BASE: usize = 0x1000;

fn ten() -> Vec<f32> {
    (0..10).map(|x| x as f32).collect()
}

fn naive(slice: &[f32]) -> f32 {
    slice.iter().fold(0., |acc, &x| acc + x)
}

#[test]
fn cast_of_ten_aligned_floats() {
    let v = ten();
    let (head, body, tail) = cast_at::<f32, f32x4>(&v, BASE);
    assert_eq!(head, &[] as &[f32]);
    assert_eq!(body.to_vec(), vec![f32x4(0., 1., 2., 3.), f32x4(4., 5., 6., 7.)]);
    assert_eq!(tail, &[8., 9.]);
}

#[test]
fn cast_of_four_floats_off_by_one() {
    let v = ten();
    let slice = &v[1..5];
    let (head, body, tail) = cast_at::<f32, f32x4>(slice, BASE + 4);
    assert_eq!(head, &[1., 2., 3., 4.]);
    assert!(body.is_empty());
    assert_eq!(body.to_vec(), vec![]);
    assert_eq!(tail, &[] as &[f32]);
}

#[test]
fn cast_of_eight_floats_off_by_two() {
    let v = ten();
    let slice = &v[2..];
    let (head, body, tail) = cast_at::<f32, f32x4>(slice, BASE + 8);
    assert_eq!(head, &[2., 3.]);
    assert_eq!(body.to_vec(), vec![f32x4(4., 5., 6., 7.)]);
    assert_eq!(tail, &[8., 9.]);
}

#[test]
fn cast_puts_every_float_back_in_its_place() {
    let v: Vec<f32> = (0..23).map(|x| x as f32).collect();
    for offset in 0..4 {
        for len in 0..v.len() {
            let slice = &v[..len];
            let start = BASE + 4 * offset;
            let (head, body, tail) = cast_at::<f32, f32x4>(slice, start);
            let mut all: Vec<f32> = head.to_vec();
            for b in &body.to_vec() {
                all.extend_from_slice(&[b.0, b.1, b.2, b.3]);
            }
            all.extend_from_slice(tail);
            assert_eq!(all, slice);
            if body.is_empty() {
                assert_eq!(head, slice);
                assert!(tail.is_empty());
            } else {
                assert!(head.len() < 4);
                assert!(tail.len() < 4);
                assert_eq!((start + 4 * head.len()) % 16, 0);
            }
            if len < 4 {
                assert!(body.is_empty());
            }
        }
    }
}

#[test]
fn body_is_a_view_of_the_aligned_run() {
    let v = ten();
    let (head, body, tail) = cast_at::<f32, f32x4>(&v[1..], BASE + 4);
    assert_eq!(head, &[1., 2., 3.]);
    assert_eq!(tail, &[8., 9.]);
    assert_eq!(body.len(), 1);
    assert!(!body.is_empty());
    assert_eq!(body.scalars(), &[4., 5., 6., 7.]);
    // the view borrows the scalars where they lie
    assert_eq!(body.scalars().as_ptr(), v[4..].as_ptr());
    assert_eq!(body.get(0), Some(f32x4(4., 5., 6., 7.)));
    assert_eq!(body.get(1), None);
    assert_eq!(body.get(usize::MAX), None);
    let copy = body;
    assert_eq!(copy.to_vec(), body.clone().to_vec());

    let (_, body, _) = cast_at::<f32, f32x4>(&v, BASE);
    assert_eq!(body.len(), 2);
    assert_eq!(body.get(0), Some(f32x4(0., 1., 2., 3.)));
    assert_eq!(body.get(1), Some(f32x4(4., 5., 6., 7.)));
    assert_eq!(body.get(2), None);
    assert_eq!(body.scalars(), &v[..8]);

    let (_, body, _) = cast_at::<f32, f32x4>(&v[..3], BASE);
    assert_eq!(body.len(), 0);
    assert!(body.is_empty());
    assert_eq!(body.get(0), None);
    assert_eq!(body.scalars(), &[] as &[f32]);
    assert_eq!(body.to_vec(), vec![]);
}

#[test]
fn cast_of_a_long_slice_has_a_vector() {
    // seven floats hold four on a boundary wherever they start
    let v: Vec<f32> = (0..12).map(|x| x as f32).collect();
    for from in 0..6 {
        for len in 7..(13 - from) {
            let slice = &v[from..from + len];
            let (head, body, tail) = cast::<f32, f32x4>(slice);
            assert!(!body.is_empty());
            assert_eq!(body.scalars().as_ptr() as usize % 16, 0);
            assert_eq!(head.len() + 4 * body.len() + tail.len(), len);
            assert!(head.len() < 4 && tail.len() < 4);
        }
    }
    for offset in 0..4 {
        let (_, body, _) = cast_at::<f32, f32x4>(&v[..7], BASE + 4 * offset);
        assert_eq!(body.len(), 1);
    }
    // six do not when they start one past a boundary
    let (_, body, _) = cast_at::<f32, f32x4>(&v[..6], BASE + 4);
    assert!(body.is_empty());
}

#[test]
fn numbers_at_which_floats_cannot_lie_leave_all_in_the_head() {
    let v = ten();
    // not a multiple of the size of a float
    for start in [BASE + 1, BASE + 2, BASE + 3, BASE + 6, 1] {
        assert!(!can_hold(start, 10, 4));
        assert_eq!(partition::<f32, f32x4>(start, 10), Partition { head: 10, body: 0, tail: 0 });
        let (head, body, tail) = cast_at::<f32, f32x4>(&v, start);
        assert_eq!(head, &v[..]);
        assert!(body.is_empty());
        assert_eq!(tail, &[] as &[f32]);
        assert_eq!(sum_at::<f32, f32x4>(&v, start), 45.);
    }
    // the end is past the last address
    let top = usize::MAX - 15;
    assert!(!can_hold(top, 10, 4));
    assert_eq!(partition::<f32, f32x4>(top, 10), Partition { head: 10, body: 0, tail: 0 });
    let (head, body, tail) = cast_at::<f32, f32x4>(&v, top);
    assert_eq!(head, &v[..]);
    assert!(body.is_empty() && tail.is_empty());
    // with all in the head the order is that of the plain sum
    let big = 1e8f32;
    let w = [big, 1., 1., 1., -big, 1., 1., 1.];
    assert_eq!(sum_at::<f32, f32x4>(&w, BASE), 6.);
    assert_eq!(sum_at::<f32, f32x4>(&w, BASE + 2), 3.);
}

#[test]
fn partition_of_floats_at_each_offset() {
    assert_eq!(partition::<f32, f32x4>(BASE, 10), Partition { head: 0, body: 2, tail: 2 });
    assert_eq!(partition::<f32, f32x4>(BASE + 4, 10), Partition { head: 3, body: 1, tail: 3 });
    assert_eq!(partition::<f32, f32x4>(BASE + 8, 10), Partition { head: 2, body: 2, tail: 0 });
    assert_eq!(partition::<f32, f32x4>(BASE + 12, 10), Partition { head: 1, body: 2, tail: 1 });
    assert_eq!(partition::<f32, f32x4>(BASE + 4, 6), Partition { head: 6, body: 0, tail: 0 });
    assert_eq!(partition::<f32, f32x4>(BASE, 0), Partition { head: 0, body: 0, tail: 0 });
}

#[test]
fn can_hold_tells_regions_from_other_numbers() {
    assert!(can_hold(BASE, 10, 4));
    assert!(can_hold(BASE + 4, 10, 4));
    assert!(can_hold(0, 0, 4));
    // not on an element boundary
    assert!(!can_hold(BASE + 2, 10, 4));
    assert!(!can_hold(BASE + 4, 10, 8));
    // the end is past the last address
    assert!(can_hold(usize::MAX - 3, 0, 4));
    assert!(!can_hold(usize::MAX - 3, 1, 4));
    assert!(can_hold(usize::MAX - 7, 1, 4));
    assert!(!can_hold(BASE, usize::MAX, 4));
    assert!(!can_hold(BASE, usize::MAX / 4, 4));
    // scalars without a size lie anywhere
    assert!(can_hold(BASE + 1, usize::MAX, 0));
}

#[test]
fn sum_of_ten_floats_is_45() {
    let v = ten();
    assert_eq!(sum(&v), 45.);
    for offset in 0..4 {
        assert_eq!(sum_at::<f32, f32x4>(&v, BASE + 4 * offset), 45.);
    }
}

#[test]
fn sum_of_nothing_is_zero() {
    let v: Vec<f32> = Vec::new();
    assert_eq!(sum(&v), 0.);
    for offset in 0..4 {
        assert_eq!(sum_at::<f32, f32x4>(&v, BASE + 4 * offset), 0.);
    }
    let w = ten();
    assert_eq!(sum(&w[3..3]), 0.);
}

#[test]
fn sum_adds_lane_by_lane() {
    // One large number swallows a one added to it: where the ones stand in
    // the order of the additions shows in the result.
    let big = 1e8f32;
    assert_eq!(big + 1., big);
    let v = [big, 1., 1., 1., -big, 1., 1., 1.];
    assert_eq!(naive(&v), 3.);
    // aligned: the lanes hold big - big, 1 + 1, 1 + 1, 1 + 1
    assert_eq!(sum_at::<f32, f32x4>(&v, BASE), 6.);
    // one off: head [big, 1, 1], one vector [1, -big, 1, 1], tail [1]
    assert_eq!(sum_at::<f32, f32x4>(&v, BASE + 4), 3.);
    // two off: head [big, 1], one vector [1, 1, -big, 1], tail [1, 1]
    assert_eq!(sum_at::<f32, f32x4>(&v, BASE + 8), 3.);
    // three off: head [big], one vector [1, 1, 1, -big], tail [1, 1, 1]
    assert_eq!(sum_at::<f32, f32x4>(&v, BASE + 12), 3.);
}

#[test]
fn sum_adds_the_lanes_from_the_first_to_the_last() {
    let big = 1e8f32;
    // ((big + 1) + -big) + 1 is 1, while big + (1 + (-big + 1)) would be 0
    // and (big + -big) + (1 + 1) would be 2
    assert_eq!(sum_at::<f32, f32x4>(&[big, 1., -big, 1.], BASE), 1.);
    // the head comes after the vectors, and before the tail
    let v = [1., big, 0., 0., 0., -big];
    // head [1], vector [big, 0, 0, 0], tail [-big]: (big + 1) - big
    assert_eq!(sum_at::<f32, f32x4>(&v, BASE + 12), 0.);
}

#[test]
fn sum_is_near_the_naive_sum() {
    let v: Vec<f32> = (0..1000).map(|x| 0.1 + (x % 17) as f32 * 0.37).collect();
    for from in 0..9 {
        for offset in 0..4 {
            let slice = &v[from..];
            let lhs = naive(slice);
            let rhs = sum_at::<f32, f32x4>(slice, BASE + 4 * offset);
            assert!((lhs - rhs).abs() <= 1e-5 * lhs.abs(), "{} and {}", lhs, rhs);
        }
    }
}

#[test]
fn cast_goes_by_the_address_of_the_slice() {
    let v = ten();
    for from in 0..10 {
        let slice = &v[from..];
        let start = slice.as_ptr() as usize;
        assert!(can_hold(start, slice.len(), 4));
        let here = cast::<f32, f32x4>(slice);
        let there = cast_at::<f32, f32x4>(slice, start);
        assert_eq!(here.0, there.0);
        assert_eq!(here.1.scalars(), there.1.scalars());
        assert_eq!(here.1.to_vec(), there.1.to_vec());
        assert_eq!(here.2, there.2);
        assert_eq!(here.0.len() + here.1.scalars().len() + here.2.len(), slice.len());
        if !here.1.is_empty() {
            // the run lies on a vector boundary in memory
            assert_eq!(here.1.scalars().as_ptr() as usize % 16, 0);
            assert!(here.0.len() < 4 && here.2.len() < 4);
        }
    }
}

#[test]
fn sum_goes_by_the_address_of_the_slice() {
    let big = 1e8f32;
    let pattern = [big, 1., 1., 1., -big, 1., 1., 1.];
    let mut buffer = [0f32; 16];
    // the index of the first float of the buffer that lies on a boundary
    let first = (16 - buffer.as_ptr() as usize % 16) % 16 / 4;
    for offset in 0..4 {
        let from = first + offset;
        buffer[from..from + 8].copy_from_slice(&pattern);
        let slice = &buffer[from..from + 8];
        let start = slice.as_ptr() as usize;
        assert_eq!(start % 16, 4 * offset);
        let here: f32 = sum(slice);
        assert_eq!(here, sum_at::<f32, f32x4>(slice, start));
        // on the boundary the large numbers meet in one lane
        assert_eq!(here, if offset == 0 { 6. } else { 3. });
    }
}

#[test]
fn vector_operations_of_the_pairing() {
    let v = f32x4(1., 2., 3., 4.);
    assert_eq!(f32x4::from_elem(2.), f32x4(2., 2., 2., 2.));
    assert_eq!(f32x4::zeroed(), f32x4(0., 0., 0., 0.));
    assert_eq!(v.map(|x| x * x), f32x4(1., 4., 9., 16.));
    assert_eq!(Vector::sum(&v), 10.);
    assert_eq!(Vector::add(v, v), f32x4(2., 4., 6., 8.));
    assert_eq!(f32x4::load(&[5., 6., 7., 8.]), f32x4(5., 6., 7., 8.));
}
