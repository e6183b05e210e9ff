use noether::{CpuFeatures, SimdError, SimdFeatureLevel, SimdSupport, SimdVector, TargetArch};

const X86_AVX2: CpuFeatures = CpuFeatures { arch: TargetArch::X86_64, avx2: true };
const X86_PLAIN: CpuFeatures = CpuFeatures { arch: TargetArch::X86_64, avx2: false };
const ARM: CpuFeatures = CpuFeatures { arch: TargetArch::Aarch64, avx2: false };
const OTHER: CpuFeatures = CpuFeatures { arch: TargetArch::Other, avx2: false };
const HOSTS: [CpuFeatures; 4] = [X86_AVX2, X86_PLAIN, ARM, OTHER];

#[test]
fn test_simd_addition() {
    let data1: Vec<f64> = (0..100).map(|x| x as f64).collect();
    let data2: Vec<f64> = (0..100).map(|x| (x * 2) as f64).collect();
    for cpu in HOSTS.iter() {
        let simd_vec1 = SimdVector::new(&data1, cpu);
        let simd_vec2 = SimdVector::new(&data2, cpu);
        let result = simd_vec1.add(&simd_vec2).unwrap();
        for i in 0..100 {
            let result_val = result.get(i).unwrap();
            assert!((*result_val - (data1[i] + data2[i])).abs() < 1e-10);
        }
    }
}

#[test]
fn test_simd_feature_detection() {
    let level = SimdFeatureLevel::detect(&X86_AVX2);
    println!("Detected SIMD feature level: {:?}", level);
    assert!(matches!(level, SimdFeatureLevel::Scalar | SimdFeatureLevel::Avx2));
    let level = SimdFeatureLevel::detect(&X86_PLAIN);
    assert!(matches!(level, SimdFeatureLevel::Scalar | SimdFeatureLevel::Avx2));
    let level = SimdFeatureLevel::detect(&ARM);
    assert!(matches!(level, SimdFeatureLevel::Scalar | SimdFeatureLevel::Neon));
    let level = SimdFeatureLevel::detect(&OTHER);
    assert!(matches!(level, SimdFeatureLevel::Scalar));
}

#[test]
fn test_simd_vector_creation() {
    let data: Vec<f64> = (0..100).map(|x| x as f64).collect();
    let simd_vec = SimdVector::new(&data, &X86_AVX2);
    assert_eq!(simd_vec.len(), data.len());
}

#[test]
#[should_panic(expected = "Vector lengths must match")]
fn test_simd_addition_mismatched_lengths() {
    let data1: Vec<f64> = (0..100).map(|x| x as f64).collect();
    let data2: Vec<f64> = (0..50).map(|x| x as f64).collect();
    let simd_vec1 = SimdVector::new(&data1, &X86_AVX2);
    let simd_vec2 = SimdVector::new(&data2, &X86_AVX2);
    let _ = simd_vec1.add(&simd_vec2).expect("Vector lengths must match");
}

#[test]
fn test_simd_vector_operations() {
    let data1: Vec<f64> = vec![1.0, 2.0, 3.0, 4.0];
    let data2: Vec<f64> = vec![2.0, 3.0, 4.0, 5.0];
    for cpu in HOSTS.iter() {
        let simd_vec1 = SimdVector::new(&data1, cpu);
        let simd_vec2 = SimdVector::new(&data2, cpu);
        let result = simd_vec1.add(&simd_vec2).unwrap();
        let result_slice = result.as_slice();
        assert_eq!(result_slice, &[3.0, 5.0, 7.0, 9.0]);
    }
}

#[test]
fn test_vector_width() {
    let width = SimdFeatureLevel::detect(&X86_AVX2).vector_width();
    assert!(width == 1 || width == 32);
    let width = SimdFeatureLevel::detect(&X86_PLAIN).vector_width();
    assert!(width == 1 || width == 32);
    let width = SimdFeatureLevel::detect(&ARM).vector_width();
    assert!(width == 16);
    let width = SimdFeatureLevel::detect(&OTHER).vector_width();
    assert_eq!(width, 1);
}

#[test]
fn test_simd_addition_edge_cases() {
    for cpu in HOSTS.iter() {
        let data1 = vec![f64::MAX / 2.0, f64::MAX / 3.0];
        let data2 = vec![f64::MAX / 2.0, f64::MAX / 3.0];
        let result = SimdVector::new(&data1, cpu).add(&SimdVector::new(&data2, cpu)).unwrap();
        assert!((result.get(0).unwrap() - f64::MAX).abs() < f64::EPSILON);

        let data3 = vec![f64::INFINITY, -f64::INFINITY];
        let data4 = vec![1.0, -1.0];
        let result2 = SimdVector::new(&data3, cpu).add(&SimdVector::new(&data4, cpu)).unwrap();
        assert!(result2.get(0).unwrap().is_infinite() && result2.get(0).unwrap().is_sign_positive());
        assert!(result2.get(1).unwrap().is_infinite() && result2.get(1).unwrap().is_sign_negative());

        let data5 = vec![f64::NAN, 1.0];
        let data6 = vec![1.0, 1.0];
        let result3 = SimdVector::new(&data5, cpu).add(&SimdVector::new(&data6, cpu)).unwrap();
        assert!(result3.get(0).unwrap().is_nan());
        assert!((result3.get(1).unwrap() - 2.0).abs() < f64::EPSILON);

        let data7 = vec![0.0, -0.0];
        let data8 = vec![0.0, 0.0];
        let result4 = SimdVector::new(&data7, cpu).add(&SimdVector::new(&data8, cpu)).unwrap();
        assert_eq!(*result4.get(0).unwrap(), 0.0);
        assert_eq!(*result4.get(1).unwrap(), 0.0);
    }
}

#[test]
fn detect_picks_level_per_host() {
    assert_eq!(SimdFeatureLevel::detect(&X86_AVX2), SimdFeatureLevel::Avx2);
    assert_eq!(SimdFeatureLevel::detect(&X86_PLAIN), SimdFeatureLevel::Scalar);
    assert_eq!(SimdFeatureLevel::detect(&ARM), SimdFeatureLevel::Neon);
    assert_eq!(SimdFeatureLevel::detect(&OTHER), SimdFeatureLevel::Scalar);
    assert_eq!(SimdFeatureLevel::Scalar.vector_width(), 1);
    assert_eq!(SimdFeatureLevel::Avx2.vector_width(), 32);
    assert_eq!(SimdFeatureLevel::Neon.vector_width(), 16);
}

#[test]
fn detect_is_repeatable() {
    for cpu in HOSTS.iter() {
        let first = SimdFeatureLevel::detect(cpu);
        for _ in 0..10 {
            assert_eq!(SimdFeatureLevel::detect(cpu), first);
        }
        let v = SimdVector::new(&[1u32, 2, 3], cpu);
        assert_eq!(v.level(), first);
        let sum = v.add(&v).unwrap();
        assert_eq!(sum.level(), first);
    }
}

#[test]
fn support_queries_follow_detection() {
    assert!(<f64 as SimdSupport>::has_simd_support(&X86_AVX2));
    assert!(!<f64 as SimdSupport>::has_simd_support(&X86_PLAIN));
    assert!(<u64 as SimdSupport>::has_simd_support(&ARM));
    assert!(!<u64 as SimdSupport>::has_simd_support(&OTHER));
    assert_eq!(<i32 as SimdSupport>::simd_feature_level(&ARM), SimdFeatureLevel::Neon);
}

#[test]
fn mismatched_lengths_give_error() {
    for cpu in HOSTS.iter() {
        let a = SimdVector::new(&[1i64, 2, 3], cpu);
        let b = SimdVector::new(&[1i64, 2], cpu);
        assert_eq!(a.add(&b).err(), Some(SimdError::LengthMismatch { left: 3, right: 2 }));
        assert_eq!(b.sub(&a).err(), Some(SimdError::LengthMismatch { left: 2, right: 3 }));
        assert_eq!(a.mul(&b).err(), Some(SimdError::LengthMismatch { left: 3, right: 2 }));
    }
}

#[test]
fn every_length_is_covered_by_chunks_and_remainder() {
    // Lengths around the 16- and 32-lane windows exercise whole chunks,
    // remainders and both together.
    for len in [0usize, 1, 15, 16, 17, 31, 32, 33, 47, 64, 65, 100] {
        let a: Vec<i64> = (0..len as i64).collect();
        let b: Vec<i64> = (0..len as i64).map(|x| 1000 - 3 * x).collect();
        for cpu in HOSTS.iter() {
            let va = SimdVector::new(&a, cpu);
            let vb = SimdVector::new(&b, cpu);
            let sum = va.add(&vb).unwrap();
            let diff = va.sub(&vb).unwrap();
            let prod = va.mul(&vb).unwrap();
            assert_eq!(sum.len(), len);
            for i in 0..len {
                assert_eq!(sum.as_slice()[i], a[i] + b[i]);
                assert_eq!(diff.as_slice()[i], a[i] - b[i]);
                assert_eq!(prod.as_slice()[i], a[i] * b[i]);
            }
        }
    }
}

#[test]
fn sub_and_mul_on_floats() {
    for cpu in HOSTS.iter() {
        let a = SimdVector::new(&[1.5f64, -2.0, 0.0, f64::INFINITY], cpu);
        let b = SimdVector::new(&[0.5f64, 4.0, -0.0, 2.0], cpu);
        assert_eq!(a.sub(&b).unwrap().as_slice(), &[1.0, -6.0, 0.0, f64::INFINITY]);
        assert_eq!(a.mul(&b).unwrap().as_slice(), &[0.75, -8.0, -0.0, f64::INFINITY]);
    }
}

#[test]
fn nan_stays_at_its_index() {
    let mut a: Vec<f64> = (0..40).map(|x| x as f64).collect();
    let b: Vec<f64> = vec![1.0; 40];
    a[5] = f64::NAN;
    a[35] = f64::NAN;
    for cpu in HOSTS.iter() {
        let r = SimdVector::new(&a, cpu).add(&SimdVector::new(&b, cpu)).unwrap();
        for i in 0..40 {
            if i == 5 || i == 35 {
                assert!(r.get(i).unwrap().is_nan());
            } else {
                assert_eq!(*r.get(i).unwrap(), i as f64 + 1.0);
            }
        }
    }
}

#[test]
fn infinities_keep_their_sign_among_neighbours() {
    let mut a: Vec<f64> = vec![2.0; 34];
    let mut b: Vec<f64> = vec![3.0; 34];
    a[0] = f64::INFINITY;
    b[0] = 1.0;
    a[33] = f64::NEG_INFINITY;
    b[33] = -1.0;
    for cpu in HOSTS.iter() {
        let r = SimdVector::new(&a, cpu).add(&SimdVector::new(&b, cpu)).unwrap();
        assert_eq!(*r.get(0).unwrap(), f64::INFINITY);
        assert_eq!(*r.get(33).unwrap(), f64::NEG_INFINITY);
        for i in 1..33 {
            assert_eq!(*r.get(i).unwrap(), 5.0);
        }
    }
}

#[test]
fn zeros_add_to_positive_zero() {
    let a: Vec<f64> = vec![0.0, -0.0, 0.0, -0.0];
    let b: Vec<f64> = vec![0.0, 0.0, -0.0, -0.0];
    for cpu in HOSTS.iter() {
        let r = SimdVector::new(&a, cpu).add(&SimdVector::new(&b, cpu)).unwrap();
        assert!(*r.get(0).unwrap() == 0.0 && r.get(0).unwrap().is_sign_positive());
        assert!(*r.get(1).unwrap() == 0.0 && r.get(1).unwrap().is_sign_positive());
        assert!(*r.get(2).unwrap() == 0.0 && r.get(2).unwrap().is_sign_positive());
        assert!(*r.get(3).unwrap() == 0.0 && r.get(3).unwrap().is_sign_negative());
    }
}

#[test]
fn example_sum_under_every_level() {
    let data1: Vec<f64> = vec![1.0, 2.0, 3.0, 4.0];
    let data2: Vec<f64> = vec![2.0, 3.0, 4.0, 5.0];
    for cpu in HOSTS.iter() {
        let r = SimdVector::new(&data1, cpu).add(&SimdVector::new(&data2, cpu)).unwrap();
        assert_eq!(r.as_slice(), &[3.0, 5.0, 7.0, 9.0]);
    }
}

#[test]
fn accessors_report_contents() {
    let empty: SimdVector<u8> = SimdVector::new(&[], &OTHER);
    assert!(empty.is_empty());
    assert_eq!(empty.len(), 0);
    assert_eq!(empty.get(0), None);
    let v = SimdVector::new(&[7u8, 8, 9], &ARM);
    assert!(!v.is_empty());
    assert_eq!(v.get(2), Some(&9));
    assert_eq!(v.get(3), None);
    assert_eq!(v.as_slice(), &[7, 8, 9]);
    let e = SimdVector::new(&[1u8], &ARM).add(&empty).err();
    assert_eq!(e, Some(SimdError::LengthMismatch { left: 1, right: 0 }));
}
