use ta_core::base::Error;
use ta_core::candle::Candle;
use ta_core::helpers::MA;
use ta_core::methods::atr::{ATR, ATRParams, ATRSmooth};
use ta_core::methods::ema::EMA;
use ta_core::methods::rma::RMA;
use ta_core::methods::sma::SMA;
use ta_core::methods::tr::TR;
use ta_core::methods::wma::WMA;

fn bar(high: u64, low: u64, close: u64) -> Candle {
    Candle { open: low, high, low, close, volume: 0 }
}

#[test]
fn new_succeeds_for_every_positive_period() {
    for p in [1u8, 2, 14, 255] {
        assert!(SMA::new(p, 5).is_ok());
        assert!(EMA::new(p, 5).is_ok());
        assert!(RMA::new(p, 5).is_ok());
        assert!(WMA::new(p, 5).is_ok());
        assert!(MA::SMA(p).init(5).is_ok());
        assert!(MA::EMA(p).init(5).is_ok());
        assert!(MA::RMA(p).init(5).is_ok());
        assert!(MA::WMA(p).init(5).is_ok());
    }
}

#[test]
fn new_fails_for_zero_period() {
    assert!(matches!(SMA::new(0, 5), Err(Error::WrongMethodParameters)));
    assert!(matches!(EMA::new(0, 5), Err(Error::WrongMethodParameters)));
    assert!(matches!(RMA::new(0, 5), Err(Error::WrongMethodParameters)));
    assert!(matches!(WMA::new(0, 5), Err(Error::WrongMethodParameters)));
    assert!(matches!(MA::RMA(0).init(5), Err(Error::WrongMethodParameters)));
}

#[test]
fn rma_follows_its_recurrence() {
    let mut m = RMA::new(3, 9).unwrap();
    assert_eq!(m.peek(), 9);
    assert_eq!(m.next(3), (3 + 2 * 9) / 3); // 7
    assert_eq!(m.next(0), (0 + 2 * 7) / 3); // 4
    assert_eq!(m.peek(), 4);
}

#[test]
fn rma_with_period_one_is_identity() {
    let mut m = RMA::new(1, 9).unwrap();
    assert_eq!(m.next(3), 3);
    assert_eq!(m.next(100), 100);
}

#[test]
fn sma_partial_window_means_samples_seen_so_far() {
    let mut m = SMA::new(3, 6).unwrap();
    assert_eq!(m.peek(), 6);
    assert_eq!(m.next(0), 3); // mean of 6, 0
    assert_eq!(m.next(3), 3); // mean of 6, 0, 3
    assert_eq!(m.next(9), 4); // window slides: mean of 0, 3, 9
}

#[test]
fn ema_follows_its_recurrence() {
    let mut m = EMA::new(3, 8).unwrap();
    assert_eq!(m.peek(), 8);
    assert_eq!(m.next(0), (2 * 0 + 2 * 8) / 4); // 4
    assert_eq!(m.next(8), (2 * 8 + 2 * 4) / 4); // 6
}

#[test]
fn wma_weighs_recent_samples_most() {
    let mut m = WMA::new(2, 4).unwrap();
    assert_eq!(m.peek(), 4);
    assert_eq!(m.next(10), (1 * 4 + 2 * 10) / 3); // 8
    assert_eq!(m.next(1), (1 * 10 + 2 * 1) / 3); // 4
}

#[test]
fn true_range_against_previous_close() {
    let c = bar(10, 8, 9);
    assert_eq!(c.true_range(7), 3); // max(10,7) - min(8,7)
    assert_eq!(c.true_range(9), 2); // prev close inside the bar: high - low
    assert_eq!(c.true_range(8), 2);
    assert_eq!(c.true_range(10), 2);
    assert_eq!(c.true_range(12), 4); // max(10,12) - min(8,12)
    assert_eq!(c.true_range_self(), 2);
}

#[test]
fn tr_method_remembers_previous_close() {
    let mut tr = TR::new(&bar(10, 8, 9));
    assert_eq!(tr.peek(), 2); // seed: high - low
    assert_eq!(tr.next(&bar(11, 9, 10)), 2); // max(11,9) - min(9,9)
    assert_eq!(tr.next(&bar(12, 11, 12)), 2); // max(12,10) - min(11,10)
    assert_eq!(tr.peek(), 2);
}

#[test]
fn atr_scenario_period_one_rma() {
    let params = ATRParams { smooth: ATRSmooth::RMA, length: 1 };
    let mut atr = ATR::new(params, &bar(10, 8, 9)).unwrap();
    assert_eq!(atr.peek(), 2); // seed True Range 10 - 8
    assert_eq!(atr.next(&bar(11, 9, 10)), 2); // TR 2, identity smoothing
    assert_eq!(atr.peek(), 2);
}

#[test]
fn atr_rejects_zero_length() {
    let params = ATRParams { smooth: ATRSmooth::SMA, length: 0 };
    assert!(matches!(ATR::new(params, &bar(10, 8, 9)), Err(Error::WrongMethodParameters)));
}

#[test]
fn atr_constant_candles_settle_to_zero() {
    // A run that starts with a wide bar, then sees only one constant bar:
    // every True Range after the first is zero, so the output drains to
    // exactly zero and stays there.
    for smooth in [ATRSmooth::RMA, ATRSmooth::SMA, ATRSmooth::EMA, ATRSmooth::WMA] {
        let params = ATRParams { smooth, length: 3 };
        let mut atr = ATR::new(params, &bar(10, 2, 6)).unwrap();
        assert_eq!(atr.peek(), 8);
        let flat = bar(5, 5, 5);
        let mut last = atr.next(&flat);
        for _ in 0..20 {
            let v = atr.next(&flat);
            assert!(v <= last);
            last = v;
        }
        assert_eq!(last, 0);
    }
}

#[test]
fn ma_selector_dispatches_to_each_variant() {
    let mut s = MA::SMA(2).init(4).unwrap();
    assert_eq!(s.peek(), 4);
    assert_eq!(s.next(8), 6);
    let mut w = MA::WMA(2).init(4).unwrap();
    assert_eq!(w.next(10), 8);
    let mut e = MA::EMA(3).init(8).unwrap();
    assert_eq!(e.next(0), 4);
    let mut r = MA::RMA(3).init(9).unwrap();
    assert_eq!(r.next(3), 7);
    assert_eq!(MA::RMA(14).period(), 14);
}
