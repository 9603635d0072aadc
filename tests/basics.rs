use spartan::wire::{decode_scalars, encode_scalars};
use spartan::codec::le_value_mod;
use spartan::field::FIELD_MODULUS;
use spartan::group::GROUP_MODULUS;
use spartan::memory::eval_identity;
use spartan::poly::{bound_poly_var_bot, eval_eq, eval_eq_x_y, evaluate_mle, evaluate_value, MatrixEntry};
use spartan::proofs::MemoryClaims;
use spartan::{adc, behind_verify_for_timestamp, mac, mac_discard, mac_with_carry, sbb, to_hex};
use spartan::{Fr, GroupElem, SynthesisError};

fn fr(x: u64) -> Fr {
    Fr::from_u64(x)
}

#[test]
fn field_arithmetic_exact() {
    let p = FIELD_MODULUS;
    assert_eq!(fr(p - 1).add(&fr(2)), fr(1));
    assert_eq!(fr(3).sub(&fr(5)), fr(p - 2));
    assert_eq!(fr(p - 1).mul(&fr(p - 1)), fr(1));
    assert_eq!(fr(7).mul(&fr(7).inverse()), fr(1));
    assert_eq!(fr(p), fr(0));
}

#[test]
fn scalar_round_trip() {
    for x in [0u64, 1, 255, 256, 123456789, FIELD_MODULUS - 1] {
        let e = fr(x);
        let b = e.to_bytes();
        assert_eq!(b.len(), 8);
        assert_eq!(Fr::from_bytes(&b), Some(e));
    }
    assert_eq!(fr(258).to_bytes(), vec![2, 1, 0, 0, 0, 0, 0, 0]);
    // non-canonical and mis-sized encodings are refused
    assert_eq!(Fr::from_bytes(&FIELD_MODULUS.to_le_bytes()), None);
    assert_eq!(Fr::from_bytes(&[1, 2, 3]), None);
}

#[test]
fn group_round_trip() {
    let g = GroupElem::from_seed(12345);
    assert_eq!(GroupElem::from_bytes(&g.to_bytes()), Some(g));
    let sum = g.add(&GroupElem::from_seed(777)).mul(&fr(99));
    assert_eq!(GroupElem::from_bytes(&sum.to_bytes()), Some(sum));
    assert_eq!(GroupElem::from_bytes(&0u64.to_le_bytes()), None);
    assert_eq!(GroupElem::from_bytes(&GROUP_MODULUS.to_le_bytes()), None);
}

#[test]
fn group_law_consistency() {
    let g = GroupElem::from_seed(5);
    let a = fr(1234);
    let b = fr(98765);
    assert_eq!(g.mul(&a).add(&g.mul(&b)), g.mul(&a.add(&b)));
    assert_eq!(g.mul(&a).sub(&g.mul(&a)), GroupElem::zero());
    assert_eq!(g.mul(&fr(0)), GroupElem::zero());
    // 5^2 mod q
    assert_eq!(g.to_bytes(), 25u64.to_le_bytes().to_vec());
}

#[test]
fn challenge_bytes_reduce_mod_field() {
    let mut b = vec![0u8; 31];
    b[0] = 5;
    assert_eq!(Fr::from_random_bytes(&b), fr(5));
    b[1] = 1;
    assert_eq!(Fr::from_random_bytes(&b), fr(261));
    assert_eq!(le_value_mod(&[0xff; 8], 1000), (u64::MAX % 1000));
}

#[test]
fn hex_encoding() {
    assert_eq!(to_hex(&[0x00, 0xab, 0x0f, 0xff]), "00ab0fff");
    assert_eq!(to_hex(&[]), "");
}

#[test]
fn limb_arithmetic() {
    let mut carry = 1u64;
    assert_eq!(adc(u64::MAX, 1, &mut carry), 1);
    assert_eq!(carry, 1);
    let mut carry = 0u64;
    assert_eq!(adc(2, 3, &mut carry), 5);
    assert_eq!(carry, 0);
    let mut borrow = 0u64;
    assert_eq!(sbb(0, 1, &mut borrow), u64::MAX);
    assert_eq!(borrow, 1);
    let mut borrow = 1u64;
    assert_eq!(sbb(10, 3, &mut borrow), 6);
    assert_eq!(borrow, 0);
    let mut carry = 7u64;
    assert_eq!(mac_with_carry(1, u64::MAX, 2, &mut carry), 6);
    assert_eq!(carry, 2);
    let mut carry = 7u64;
    assert_eq!(mac(1, u64::MAX, 2, &mut carry), u64::MAX);
    assert_eq!(carry, 1);
    let mut carry = 0u64;
    mac_discard(0, 1 << 63, 4, &mut carry);
    assert_eq!(carry, 2);
}

#[test]
fn equality_polynomial_tables() {
    let r = vec![fr(3), fr(5)];
    let t = eval_eq(&r);
    // chi(0b01) = (1 - 3) * 5, first coordinate most significant
    assert_eq!(t[1], fr(1).sub(&fr(3)).mul(&fr(5)));
    assert_eq!(t.len(), 4);
    assert_eq!(t.iter().fold(Fr::zero(), |s, x| s.add(x)), fr(1));
    assert_eq!(eval_eq_x_y(&vec![fr(1), fr(0)], &vec![fr(1), fr(0)]), fr(1));
    assert_eq!(eval_eq_x_y(&vec![fr(1), fr(0)], &vec![fr(0), fr(0)]), fr(0));
    // a multilinear table evaluates to its entries on the hypercube
    let vals = vec![fr(10), fr(20), fr(30), fr(40)];
    assert_eq!(evaluate_value(&vals, &vec![fr(1), fr(0)]), fr(30));
    let bound = bound_poly_var_bot(&vals, &fr(2));
    assert_eq!(bound, vec![fr(30), fr(50)]);
}

#[test]
fn sparse_matrix_evaluation() {
    let m = vec![
        MatrixEntry { row: 0, col: 1, val: fr(2) },
        MatrixEntry { row: 1, col: 0, val: fr(3) },
    ];
    assert_eq!(evaluate_mle(&m, &vec![fr(0)], &vec![fr(1)]), Ok(fr(2)));
    assert_eq!(evaluate_mle(&m, &vec![fr(1)], &vec![fr(0)]), Ok(fr(3)));
    let out = vec![MatrixEntry { row: 2, col: 0, val: fr(1) }];
    assert_eq!(evaluate_mle(&out, &vec![fr(1)], &vec![fr(0)]), Err(SynthesisError::ParameterMismatch));
}

fn hash(a: &Fr, v: &Fr, t: &Fr, g1: &Fr, g2: &Fr) -> Fr {
    a.mul(g1).mul(g1).add(&v.mul(g1)).add(t).sub(g2)
}

/// A read-only memory of four cells accessed in turn: the grand products
/// of the fingerprints satisfy `init * write == read * audit`, and a read
/// of a wrong value breaks the identity.
#[test]
fn memory_check_identity_on_a_trace() {
    let vals = [fr(9), fr(8), fr(7), fr(6)];
    let addrs = [0usize, 2, 2, 3, 0, 1, 2];
    let (g1, g2) = (fr(1_000_003), fr(777));
    let run = |bad: Option<usize>| {
        let mut ts = [0u64; 4];
        let (mut read, mut write) = (Fr::one(), Fr::one());
        for (k, &a) in addrs.iter().enumerate() {
            let v = if bad == Some(k) { vals[a].add(&fr(1)) } else { vals[a] };
            read = read.mul(&hash(&fr(a as u64), &v, &fr(ts[a]), &g1, &g2));
            write = write.mul(&hash(&fr(a as u64), &v, &fr(ts[a] + 1), &g1, &g2));
            ts[a] += 1;
        }
        let mut init = Fr::one();
        let mut audit = Fr::one();
        for a in 0..4 {
            init = init.mul(&hash(&fr(a as u64), &vals[a], &fr(0), &g1, &g2));
            audit = audit.mul(&hash(&fr(a as u64), &vals[a], &fr(ts[a]), &g1, &g2));
        }
        init.mul(&write) == read.mul(&audit)
    };
    assert!(run(None));
    assert!(!run(Some(3)));
}

#[test]
fn timestamp_check_accepts_consistent_claims() {
    let rands_mem = vec![fr(4), fr(9)];
    let r = vec![fr(2), fr(5)];
    let (g1, g2) = (fr(11), fr(13));
    let addr = eval_identity(&rands_mem);
    assert_eq!(addr, fr(4 * 2 + 9));
    let val = eval_eq_x_y(&r, &rands_mem);
    let ops_val = vec![fr(21), fr(22), fr(23)];
    let addr_ops = vec![fr(31), fr(32), fr(33)];
    let read_ts = vec![fr(41), fr(42), fr(43)];
    let audit_ts = fr(51);
    let claims = MemoryClaims {
        init: hash(&addr, &val, &fr(0), &g1, &g2),
        read: (0..3).map(|i| hash(&addr_ops[i], &ops_val[i], &read_ts[i], &g1, &g2)).collect(),
        write: (0..3)
            .map(|i| hash(&addr_ops[i], &ops_val[i], &read_ts[i].add(&fr(1)), &g1, &g2))
            .collect(),
        audit: hash(&addr, &val, &audit_ts, &g1, &g2),
    };
    let check = |c: &MemoryClaims, rr: &Vec<Fr>, av: &Vec<Fr>| {
        behind_verify_for_timestamp(&rands_mem, c, rr, &ops_val, av, &read_ts, &audit_ts, &g1, &g2)
    };
    assert_eq!(check(&claims, &r, &addr_ops), Ok(()));
    let mut bad = claims.clone();
    bad.write[1] = bad.write[1].add(&fr(1));
    assert_eq!(check(&bad, &r, &addr_ops), Err(SynthesisError::CryptographicCheckFailed));
    let mut bad = claims.clone();
    bad.audit = bad.read[0];
    assert_eq!(check(&bad, &r, &addr_ops), Err(SynthesisError::CryptographicCheckFailed));
    assert_eq!(check(&claims, &vec![fr(2)], &addr_ops), Err(SynthesisError::MalformedProof));
    assert_eq!(check(&claims, &r, &addr_ops[..2].to_vec()), Err(SynthesisError::MalformedProof));
}

#[test]
fn scalar_vector_round_trip() {
    let v = vec![fr(0), fr(1), fr(FIELD_MODULUS - 1), fr(1 << 40)];
    let b = encode_scalars(&v);
    assert_eq!(b.len(), 32);
    assert_eq!(decode_scalars(&b), Some(v));
    assert_eq!(decode_scalars(&b[..31]), None);
    let mut bad = b.clone();
    bad[8..16].copy_from_slice(&u64::MAX.to_le_bytes());
    assert_eq!(decode_scalars(&bad), None);
    assert_eq!(decode_scalars(&[]), Some(Vec::new()));
}
