//! Bit errors between messages.

use audiostego::dsp::metrics::bit_errors;

#[test]
fn ber_helper_zero_on_equal() {
    assert_eq!(bit_errors(b"abc", b"abc"), 0);
}
