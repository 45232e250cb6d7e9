use mpc_core::cointossing::{finish, init, serialize, COIN_LEN};
use mpc_core::Error;
use rand_chacha::ChaCha20Rng;
use rand_core::{RngCore, SeedableRng};

#[test]
fn test_coinshare() {
    let test_val = (ChaCha20Rng::from_entropy().next_u32() % 255) as u8;
    let coin1 = [test_val; COIN_LEN];
    let coin2 = [!test_val; COIN_LEN];
    let expected = [255u8; COIN_LEN];

    let (coin_share1, commitment_msg1) = init(coin1).unwrap();
    let coin_msg1 = serialize(&coin_share1).unwrap();

    let (coin_share2, commitment_msg2) = init(coin2).unwrap();
    let coin_msg2 = serialize(&coin_share2).unwrap();

    assert_eq!(
        expected,
        finish(coin_share1, commitment_msg2, coin_msg2).unwrap()
    );
    assert_eq!(
        expected,
        finish(coin_share2, commitment_msg1, coin_msg1).unwrap()
    );
}

#[test]
fn test_coinshare_fail() {
    let mut rng = ChaCha20Rng::from_entropy();
    let mut coin1: [u8; COIN_LEN] = Default::default();
    let mut coin2: [u8; COIN_LEN] = Default::default();
    rng.fill_bytes(&mut coin1[0..]);
    rng.fill_bytes(&mut coin2[0..]);
    let coin1 = coin1;
    let coin2 = coin2;

    let corruption_index = (rng.next_u32() as usize) % (COIN_LEN * 8);

    let (coin_share1, _) = init(coin1).unwrap();
    let (coin_share2_ok, commitment_msg2_ok) = init(coin2.clone()).unwrap();
    let coin_msg2_ok = serialize(&coin_share2_ok).unwrap();

    let mut coin2 = coin2.clone();
    coin2[corruption_index / 8] ^= 1 << (corruption_index % 8);

    let (coin_share2_nok, commitment_msg2_nok) = init(coin2).unwrap();
    let coin_msg2_nok = serialize(&coin_share2_nok).unwrap();

    assert_eq!(
        Err(Error::MacError),
        finish(
            coin_share1.clone(),
            commitment_msg2_nok,
            coin_msg2_ok.clone()
        )
    );

    assert_eq!(
        Err(Error::MacError),
        finish(
            coin_share1.clone(),
            commitment_msg2_ok,
            coin_msg2_nok.clone()
        )
    );
}

#[test]
fn test_finish_short_messages() {
    let (coin_share, commitment_msg) = init([1u8; COIN_LEN]).unwrap();
    let coin_msg = serialize(&coin_share).unwrap();

    let (coin_share_b, _) = init([2u8; COIN_LEN]).unwrap();
    assert_eq!(
        Err(Error::SerializationError),
        finish(coin_share_b, vec![0u8; 31], coin_msg)
    );

    let (coin_share_c, _) = init([3u8; COIN_LEN]).unwrap();
    assert_eq!(
        Err(Error::SerializationError),
        finish(coin_share_c, commitment_msg, vec![0u8; 5])
    );
}
