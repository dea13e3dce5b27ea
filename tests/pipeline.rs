use terminal_spectrograph::radio::Return;
use terminal_spectrograph::{fft_shift, samples_from_bytes, Delivery, LatestSlot, Sample};

#[test]
fn fft_shift_even_and_odd() {
    assert_eq!(fft_shift(&vec![0, 1, 2, 3]), vec![2, 3, 0, 1]);
    assert_eq!(fft_shift(&vec![0, 1, 2, 3, 4]), vec![3, 4, 0, 1, 2]);
    assert_eq!(fft_shift(&vec![7]), vec![7]);
    assert_eq!(fft_shift::<u8>(&vec![]), Vec::<u8>::new());
}

#[test]
fn fft_shift_twice_restores_even_length() {
    for n in [0usize, 2, 4, 10, 64] {
        let v: Vec<usize> = (0..n).collect();
        assert_eq!(fft_shift(&fft_shift(&v)), v);
    }
    // with an odd length the second shift does not undo the first
    let odd = vec![0, 1, 2];
    assert_eq!(fft_shift(&fft_shift(&odd)), vec![1, 2, 0]);
}

#[test]
fn slot_keeps_only_latest_offer() {
    let mut slot: LatestSlot<u32> = LatestSlot::new();
    assert_eq!(slot.offer(1), Delivery::Stored);
    assert_eq!(slot.offer(2), Delivery::Replaced);
    assert_eq!(slot.offer(3), Delivery::Replaced);
    assert_eq!(slot.take(), Some(3));
    assert_eq!(slot.take(), None);
    assert_eq!(slot.offer(4), Delivery::Stored);
    assert_eq!(slot.take(), Some(4));
}

#[test]
fn slot_refuses_offers_once_receiver_is_gone() {
    let mut slot: LatestSlot<u32> = LatestSlot::new();
    slot.offer(1);
    slot.close_receiver();
    assert!(slot.is_receiver_closed());
    assert_eq!(slot.offer(2), Delivery::Disconnected);
    assert!(!slot.is_sender_closed());
    slot.close_sender();
    assert!(slot.is_sender_closed());
    assert_eq!(slot.take(), Some(1));
}

#[test]
fn driver_codes_round_trip() {
    let all = [
        Return::SUCCESS,
        Return::TRUE,
        Return::ERROR_INVALID_PARAM,
        Return::ERROR_NOT_FOUND,
        Return::ERROR_BUSY,
        Return::ERROR_NO_MEM,
        Return::ERROR_LIBUSB,
        Return::ERROR_THREAD,
        Return::ERROR_STREAMING_THREAD_ERR,
        Return::ERROR_STREAMING_STOPPED,
        Return::ERROR_STREAMING_EXIT_CALLED,
        Return::ERROR_OTHER,
    ];
    for r in all {
        assert_eq!(Return::from_code(r.code()), Some(r));
    }
    assert_eq!(Return::ERROR_NOT_FOUND.code(), -5);
    assert_eq!(Return::from_code(-1003), Some(Return::ERROR_STREAMING_STOPPED));
    assert_eq!(Return::from_code(7), None);
    assert!(Return::is_success_code(0));
    assert!(!Return::is_success_code(1));
}

#[test]
fn receive_buffer_holds_interleaved_signed_pairs() {
    let s = samples_from_bytes(&vec![1, 255, 128, 2]);
    assert_eq!(s, vec![Sample { re: 1, im: -1 }, Sample { re: -128, im: 2 }]);
    assert!(samples_from_bytes(&vec![]).is_empty());
}
