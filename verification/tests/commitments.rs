use curve25519_dalek::constants::{RISTRETTO_BASEPOINT_COMPRESSED, RISTRETTO_BASEPOINT_POINT};
use curve25519_dalek::ristretto::RistrettoPoint as DalekPoint;
use curve25519_dalek::scalar::Scalar;
use rand_core::OsRng;
use sha3::Sha3_512;
use spl_c_tokens_prototype::crypto::{CommitmentBase, ElGamalComm, PedersenComm, RangeProof};
use spl_c_tokens_prototype::proofs::{Pedersen, PedersenBase, ProofKnowledge};
use spl_c_tokens_prototype::ristretto::{BorshRistretto, RistrettoPoint};
use spl_c_tokens_prototype::scalar::BorshScalar;

fn scalar(s: &Scalar) -> BorshScalar {
    BorshScalar::from_canonical_bytes(s.to_bytes()).unwrap()
}

fn point(p: &DalekPoint) -> RistrettoPoint {
    BorshRistretto::new(p.compress().to_bytes()).decompress().unwrap()
}

fn encoding(p: &DalekPoint) -> BorshRistretto {
    BorshRistretto::new(p.compress().to_bytes())
}

fn dalek_h() -> DalekPoint {
    DalekPoint::hash_from_bytes::<Sha3_512>(RISTRETTO_BASEPOINT_COMPRESSED.as_bytes())
}

fn elgamal_case(swap: bool, wording: &str) -> Result<(), String> {
    let base: CommitmentBase = CommitmentBase::default();
    let mut prng = OsRng;

    let val: DalekPoint = DalekPoint::random(&mut prng);
    let open: Scalar = Scalar::random(&mut prng);
    let (g, h) = (RISTRETTO_BASEPOINT_POINT, dalek_h());

    let comm = if swap {
        ElGamalComm { comm_h: encoding(&(open * g)), comm_g: encoding(&(val + open * h)) }
    } else {
        ElGamalComm { comm_g: encoding(&(open * g)), comm_h: encoding(&(val + open * h)) }
    };

    let (bool_g, bool_h) =
        ElGamalComm::verify_commitment_detailed(&comm, &base, &scalar(&open), &point(&val));
    if bool_g & bool_h {
        Ok(())
    } else if !bool_g & !bool_h {
        Err(format!("{}, both open * G and val + open * H are incorrectly computed", wording))
    } else if bool_g == false {
        Err(format!("{}, open * G is incorrectly computed", wording))
    } else {
        Err(format!("{}, val + open * H is incorrectly computed", wording))
    }
}

#[test]
fn elgamal_open_ver_shd_work() -> Result<(), String> {
    let base: CommitmentBase = CommitmentBase::default();
    let mut prng = OsRng;

    let val: DalekPoint = DalekPoint::random(&mut prng);
    let open: Scalar = Scalar::random(&mut prng);
    let (g, h) = (RISTRETTO_BASEPOINT_POINT, dalek_h());

    let comm = ElGamalComm { comm_g: encoding(&(open * g)), comm_h: encoding(&(val + open * h)) };

    let (bool_g, bool_h) =
        ElGamalComm::verify_commitment_detailed(&comm, &base, &scalar(&open), &point(&val));
    if bool_g & bool_h {
        Ok(())
    } else if !bool_g & !bool_h {
        Err(String::from("Oops, both open * G and val + open * H are incorrectly computed"))
    } else if bool_g == false {
        Err(String::from("Oops, open * G is incorrectly computed"))
    } else {
        Err(String::from("Oops, val + open * H is incorrectly computed"))
    }
}

#[test]
fn elgamal_open_ver_shdnt_work() {
    let base: CommitmentBase = CommitmentBase::default();
    let mut prng = OsRng;

    let val: DalekPoint = DalekPoint::random(&mut prng);
    let open: Scalar = Scalar::random(&mut prng);
    let (g, h) = (RISTRETTO_BASEPOINT_POINT, dalek_h());

    let comm = ElGamalComm { comm_h: encoding(&(open * g)), comm_g: encoding(&(val + open * h)) };

    let (bool_g, bool_h) =
        ElGamalComm::verify_commitment_detailed(&comm, &base, &scalar(&open), &point(&val));
    let outcome: Result<(), String> = if bool_g & bool_h {
        Ok(())
    } else if !bool_g & !bool_h {
        Err(String::from("As expected, open * G and val + open * H are incorrectly computed"))
    } else if bool_g == false {
        Err(String::from("As expected, open * G is incorrectly computed"))
    } else {
        Err(String::from("As expected, val + open * H is incorrectly computed"))
    };
    assert_eq!(
        outcome,
        Err(String::from("As expected, open * G and val + open * H are incorrectly computed"))
    );
}

#[test]
fn elgamal_detailed_names_the_wrong_component() {
    assert_eq!(elgamal_case(false, "Oops"), Ok(()));
    assert_eq!(
        elgamal_case(true, "Oops"),
        Err(String::from("Oops, both open * G and val + open * H are incorrectly computed"))
    );
    let base = CommitmentBase::default();
    let open = BorshScalar::from_u64(11);
    let val = RistrettoPoint::mul_base(&BorshScalar::from_u64(5));
    let good = ElGamalComm::commit(&base, &open, &val);
    assert_eq!(ElGamalComm::verify_commitment_detailed(&good, &base, &open, &val), (true, true));
    assert!(ElGamalComm::verify_commitment(&good, &base, &open, &val));
    let wrong_g = ElGamalComm { comm_g: good.comm_h, comm_h: good.comm_h };
    assert_eq!(
        ElGamalComm::verify_commitment_detailed(&wrong_g, &base, &open, &val),
        (false, true)
    );
    let wrong_h = ElGamalComm { comm_g: good.comm_g, comm_h: good.comm_g };
    assert_eq!(
        ElGamalComm::verify_commitment_detailed(&wrong_h, &base, &open, &val),
        (true, false)
    );
    assert!(!ElGamalComm::verify_commitment(&wrong_h, &base, &open, &val));
}

#[test]
fn standard_generators_are_the_basepoint_and_its_hash() {
    let base = PedersenBase::default();
    assert_eq!(base.G.compress().to_bytes(), RISTRETTO_BASEPOINT_COMPRESSED.to_bytes());
    assert_eq!(base.H.compress().to_bytes(), dalek_h().compress().to_bytes());
    assert_ne!(base.G.compress().to_bytes(), base.H.compress().to_bytes());
}

#[test]
fn commitment_is_opening_times_g_plus_value_times_h() {
    let base = PedersenBase::default();
    let r = Scalar::hash_from_bytes::<Sha3_512>(b"opening");
    let v = Scalar::from(77u64);
    let expect = r * RISTRETTO_BASEPOINT_POINT + v * dalek_h();
    let comm = Pedersen::commit_with(&base, &scalar(&v), &scalar(&r));
    assert_eq!(comm.to_bytes(), expect.compress().to_bytes());
    assert_eq!(base.combine(&scalar(&r), &scalar(&v)).compress().to_bytes(), comm.to_bytes());
}

#[test]
fn commitment_verifies_under_its_own_opening_and_value() {
    let base = PedersenBase::default();
    for v in [0u64, 1, 57, u64::MAX] {
        let val = BorshScalar::from_u64(v);
        let (comm, open) = Pedersen::commit(&base, &val, None);
        assert!(Pedersen::verify_commitment(&comm, &base, &open, &val));
        assert!(PedersenComm::verify_commitment(&comm, &base, &open, &val));
        let other = BorshScalar::from_u64(v.wrapping_add(1));
        assert!(!Pedersen::verify_commitment(&comm, &base, &open, &other));
        assert!(!Pedersen::verify_commitment(&comm, &base, &open.add(&BorshScalar::one()), &val));
    }
}

#[test]
fn commit_keeps_a_given_opening() {
    let base = PedersenBase::default();
    let open = BorshScalar::from_u64(1234);
    let val = BorshScalar::from_u64(10);
    let (comm, used) = Pedersen::commit(&base, &val, Some(open));
    assert_eq!(used, open);
    assert_eq!(comm, Pedersen::commit_with(&base, &val, &open));
    let (fresh, drawn) = Pedersen::commit(&base, &val, None);
    assert_ne!(drawn, open);
    assert_ne!(fresh, comm);
}

#[test]
fn verify_refuses_bytes_that_are_no_element() {
    let base = PedersenBase::default();
    let comm = PedersenComm::from_bytes([0xff; 32]);
    assert!(!Pedersen::verify_commitment(
        &comm,
        &base,
        &BorshScalar::zero(),
        &BorshScalar::zero()
    ));
    let identity = PedersenComm::from_bytes([0u8; 32]);
    assert!(Pedersen::verify_commitment(
        &identity,
        &base,
        &BorshScalar::zero(),
        &BorshScalar::zero()
    ));
}

#[test]
fn commitments_add_up() {
    let base = PedersenBase::default();
    let (r1, v1) = (BorshScalar::from_u64(1001), BorshScalar::from_u64(77));
    let (r2, v2) = (BorshScalar::hash_from_bytes(b"r2"), BorshScalar::from_u64(10));
    let a = Pedersen::commit_with(&base, &v1, &r1);
    let b = Pedersen::commit_with(&base, &v2, &r2);
    let sum = a.add(&b).unwrap();
    let expect = Pedersen::commit_with(&base, &v1.add(&v2), &r1.add(&r2));
    assert!(sum.equals(&expect));
    assert_eq!(sum, expect);
    assert!(Pedersen::verify_commitment(&sum, &base, &r1.add(&r2), &BorshScalar::from_u64(87)));
    assert!(!sum.equals(&a));
    assert_eq!(a.add(&PedersenComm::from_bytes([0xff; 32])), None);
}

#[test]
fn pedersen_comm_wraps_its_encoding() {
    let bytes = RISTRETTO_BASEPOINT_COMPRESSED.to_bytes();
    let comm = PedersenComm::new(BorshRistretto::new(bytes));
    assert_eq!(comm.getComm().to_bytes(), bytes);
    assert_eq!(comm.to_bytes(), bytes);
    assert_eq!(comm, PedersenComm::from_bytes(bytes));
}

#[test]
fn proof_of_knowledge_is_nonce_and_response() {
    let base = PedersenBase::default();
    let k = Scalar::hash_from_bytes::<Sha3_512>(b"blinding");
    let t = Scalar::hash_from_bytes::<Sha3_512>(b"nonce");
    let pok = ProofKnowledge::prove_with_nonce(&base, &scalar(&k), &scalar(&t));
    let nonce = (t * RISTRETTO_BASEPOINT_POINT).compress();
    let c = Scalar::hash_from_bytes::<Sha3_512>(nonce.as_bytes());
    assert_eq!(pok.nonce.to_bytes(), nonce.to_bytes());
    assert_eq!(pok.scalar.to_bytes(), (k * c + t).to_bytes());
    assert_eq!(pok.challenge().to_bytes(), c.to_bytes());
}

#[test]
fn proof_of_knowledge_holds_of_its_relation_only() {
    let base = PedersenBase::default();
    let k = BorshScalar::hash_from_bytes(b"k");
    let relation = RistrettoPoint::mul_base(&k);
    let pok = ProofKnowledge::prove(&base, &k);
    assert!(pok.verify(&base, &relation));
    let other = RistrettoPoint::mul_base(&k.add(&BorshScalar::one()));
    assert!(!pok.verify(&base, &other));
    let forged = ProofKnowledge { nonce: pok.nonce, scalar: pok.scalar.add(&BorshScalar::one()) };
    assert!(!forged.verify(&base, &relation));
    let broken = ProofKnowledge { nonce: BorshRistretto::new([0xff; 32]), scalar: pok.scalar };
    assert!(!broken.verify(&base, &relation));
}

#[test]
fn proof_check_is_response_times_g_equals_challenge_times_relation_plus_nonce() {
    let base = PedersenBase::default();
    let relation = DalekPoint::hash_from_bytes::<Sha3_512>(b"relation");
    let nonce = DalekPoint::hash_from_bytes::<Sha3_512>(b"some nonce");
    let response = Scalar::hash_from_bytes::<Sha3_512>(b"response");
    let c = Scalar::hash_from_bytes::<Sha3_512>(nonce.compress().as_bytes());
    let pok = ProofKnowledge { nonce: encoding(&nonce), scalar: scalar(&response) };
    let holds = response * RISTRETTO_BASEPOINT_POINT == c * relation + nonce;
    assert_eq!(pok.verify(&base, &point(&relation)), holds);
    assert!(!holds);
}

#[test]
fn range_proofs_are_carried_and_accepted() {
    let base = PedersenBase::default();
    let (comm, _) = Pedersen::commit(&base, &BorshScalar::from_u64(5), None);
    let proof = RangeProof::new(vec![1, 2, 3]);
    assert_eq!(proof.bytes, vec![1, 2, 3]);
    assert!(proof.verify(&comm, 64, &base, b""));
    assert!(RangeProof::empty().verify(&comm, 64, &base, b""));
    assert_eq!(RangeProof::empty().bytes, Vec::<u8>::new());
    assert_eq!(proof.duplicate(), proof);
}

#[test]
fn commitments_under_other_generators() {
    let standard = CommitmentBase::default();
    let swapped = CommitmentBase { G: standard.H, H: standard.G };
    let (open, val) = (BorshScalar::from_u64(3), BorshScalar::from_u64(4));
    let comm = Pedersen::commit_with(&swapped, &val, &open);
    let expect = Scalar::from(3u64) * dalek_h() + Scalar::from(4u64) * RISTRETTO_BASEPOINT_POINT;
    assert_eq!(comm.to_bytes(), expect.compress().to_bytes());
    assert!(Pedersen::verify_commitment(&comm, &swapped, &open, &val));
    assert!(!Pedersen::verify_commitment(&comm, &standard, &open, &val));
    assert!(Pedersen::verify_commitment(&comm, &standard, &val, &open));
}
