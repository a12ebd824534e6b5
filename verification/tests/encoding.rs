use ethers_core::types::U256 as EthersU256;
use keccak_prover::{ByteText, EthU256, HashInputs, State, SEQ_LEN, U256};

fn uint(x: EthersU256) -> EthU256 {
    EthU256 { limbs: x.0 }
}

fn reassemble(word: &U256) -> EthersU256 {
    let mut acc = EthersU256::zero();
    for byte in word.to_bytes() {
        acc = acc * EthersU256::from(256u64) + EthersU256::from(byte);
    }
    acc
}

#[test]
fn byte_text_is_the_decimal_numeral() {
    assert_eq!(ByteText(0).text(), "0");
    assert_eq!(ByteText(7).text(), "7");
    assert_eq!(ByteText(9).text(), "9");
    assert_eq!(ByteText(10).text(), "10");
    assert_eq!(ByteText(42).text(), "42");
    assert_eq!(ByteText(99).text(), "99");
    assert_eq!(ByteText(100).text(), "100");
    assert_eq!(ByteText(101).text(), "101");
    assert_eq!(ByteText(200).text(), "200");
    assert_eq!(ByteText(255).text(), "255");
}

#[test]
fn byte_text_agrees_with_std_for_every_byte() {
    for b in 0..=255u8 {
        assert_eq!(ByteText(b).text(), b.to_string());
    }
}

#[test]
fn default_byte_text_is_zero() {
    assert_eq!(ByteText::default(), ByteText(0));
}

#[test]
fn u128_is_zero_extended_limb_by_limb() {
    assert_eq!(EthU256::from(0u128).limbs, [0, 0, 0, 0]);
    assert_eq!(EthU256::from(1u128).limbs, [1, 0, 0, 0]);
    assert_eq!(EthU256::from(1u128 << 64).limbs, [0, 1, 0, 0]);
    assert_eq!(EthU256::from(u128::MAX).limbs, [u64::MAX, u64::MAX, 0, 0]);
    assert_eq!(
        EthU256::from(0x0011_2233_4455_6677_8899_aabb_ccdd_eeffu128).limbs,
        [0x8899_aabb_ccdd_eeff, 0x0011_2233_4455_6677, 0, 0]
    );
}

#[test]
fn big_endian_bytes_run_from_the_top_limb_down() {
    let x = EthU256 {
        limbs: [
            0x1819_1a1b_1c1d_1e1f,
            0x1011_1213_1415_1617,
            0x0809_0a0b_0c0d_0e0f,
            0x0001_0203_0405_0607,
        ],
    };
    let mut expected = [0u8; 32];
    for (i, byte) in expected.iter_mut().enumerate() {
        *byte = i as u8;
    }
    assert_eq!(x.to_big_endian(), expected);
    assert_eq!(U256::from(x).to_bytes(), expected);
}

#[test]
fn one_is_thirty_one_zero_bytes_and_a_one() {
    let mut expected = [0u8; 32];
    expected[31] = 1;
    assert_eq!(EthU256::from(1u128).to_big_endian(), expected);
}

#[test]
fn encoding_round_trips() {
    let samples = [
        EthersU256::zero(),
        EthersU256::one(),
        EthersU256::from(255u64),
        EthersU256::from(256u64),
        EthersU256::from(u64::MAX),
        EthersU256::from(u128::MAX),
        EthersU256::from(u128::MAX) + EthersU256::one(),
        EthersU256::MAX - EthersU256::one(),
        EthersU256::MAX,
        EthersU256::from_dec_str("1234567890123456789012345678901234567890123456789012345678901234567890")
            .unwrap(),
    ];
    for v in samples {
        let word = U256::from(uint(v));
        assert_eq!(reassemble(&word), v);
        assert_eq!(EthersU256::from_big_endian(&word.to_bytes()), v);
    }
}

#[test]
fn max_is_all_ones() {
    assert_eq!(U256::from(uint(EthersU256::MAX)).to_bytes(), [255u8; 32]);
}

#[test]
fn u128_encoding_agrees_with_u256_encoding() {
    let samples = [
        0u128,
        1,
        2,
        255,
        256,
        65_535,
        u64::MAX as u128,
        (u64::MAX as u128) + 1,
        0x0123_4567_89ab_cdef_0fed_cba9_8765_4321,
        u128::MAX - 1,
        u128::MAX,
    ];
    for v in samples {
        assert_eq!(U256::from(v), U256::from(EthU256::from(v)));
        assert_eq!(U256::from(v), U256::from(uint(EthersU256::from(v))));
        assert_eq!(reassemble(&U256::from(v)), EthersU256::from(v));
    }
}

#[test]
fn u128_encoding_has_sixteen_leading_zero_bytes() {
    let bytes = U256::from(u128::MAX).to_bytes();
    assert_eq!(&bytes[..16], &[0u8; 16]);
    assert_eq!(&bytes[16..], &[255u8; 16]);
}

#[test]
fn words_and_bytes_convert_both_ways() {
    let mut bytes = [0u8; 32];
    for (i, byte) in bytes.iter_mut().enumerate() {
        *byte = (7 * i + 3) as u8;
    }
    let word = U256::from_bytes(bytes);
    assert_eq!(word.to_bytes(), bytes);
    for i in 0..32 {
        assert_eq!(word.limbs[i], ByteText(bytes[i]));
    }
}

#[test]
fn default_word_is_zero() {
    assert_eq!(U256::default().to_bytes(), [0u8; 32]);
    assert_eq!(U256::default(), U256::from(0u128));
}

#[test]
fn genesis_state_is_all_zero() {
    let genesis = State::default();
    assert_eq!(genesis.idx, ByteText(0));
    assert_eq!(genesis.idx.text(), "0");
    assert_eq!(genesis.outputs.len(), SEQ_LEN);
    for word in genesis.outputs {
        assert_eq!(word, U256::from(uint(EthersU256::zero())));
        assert_eq!(word.to_bytes(), [0u8; 32]);
    }
}

#[test]
fn hash_inputs_of_one_and_two() {
    let h = HashInputs::new(1.into(), 2.into());
    for i in 0..31 {
        assert_eq!(h.words[0].limbs[i].text(), "0");
        assert_eq!(h.words[1].limbs[i].text(), "0");
    }
    assert_eq!(h.words[0].limbs[31].text(), "1");
    assert_eq!(h.words[1].limbs[31].text(), "2");
}

#[test]
fn hash_inputs_keep_the_order_of_their_words() {
    let a = uint(EthersU256::from(3u64) << 200);
    let b = uint(EthersU256::from(5u64));
    let h = HashInputs::new(a, b);
    assert_eq!(h.words[0], U256::from(a));
    assert_eq!(h.words[1], U256::from(b));
    assert_ne!(HashInputs::new(a, b), HashInputs::new(b, a));
}
