use ta_core::base::Error;
use ta_core::candle::Candle;
use ta_core::helpers::MA;
use ta_core::indicators::atr::{ATR, ATRInstance};
use ta_core::text::u8_to_string;

fn bar(high: u64, low: u64, close: u64) -> Candle {
    Candle { open: low, high, low, close, volume: 0 }
}

fn candles() -> Vec<Candle> {
    vec![
        bar(11, 9, 10),
        bar(12, 10, 11),
        bar(12, 8, 9),
        bar(9, 7, 8),
        bar(10, 8, 10),
        bar(15, 9, 14),
    ]
}

#[test]
fn default_config_is_wilder_fourteen() {
    let cfg = ATR::default();
    assert_eq!(cfg.method1, MA::RMA(14));
    assert_eq!(cfg.method2, MA::RMA(14));
    assert_eq!(cfg.period, 14);
    assert!(cfg.validate());
}

#[test]
fn size_is_one_primary_no_signals() {
    assert_eq!(ATR::default().size(), (1, 0));
}

#[test]
fn validate_rejects_any_zero_period() {
    let mut cfg = ATR::default();
    cfg.period = 0;
    assert!(!cfg.validate());
    let mut cfg = ATR::default();
    cfg.method1 = MA::SMA(0);
    assert!(!cfg.validate());
    let mut cfg = ATR::default();
    cfg.method2 = MA::EMA(0);
    assert!(!cfg.validate());
}

#[test]
fn init_fails_on_invalid_config_before_any_candle() {
    let mut cfg = ATR::default();
    cfg.period = 0;
    assert!(matches!(cfg.init(&bar(10, 8, 9)), Err(Error::WrongConfig)));
}

#[test]
fn init_binds_config_and_first_candle() {
    let cfg = ATR::default();
    let inst = cfg.init(&bar(10, 8, 9)).unwrap();
    assert_eq!(*inst.config(), cfg);
}

#[test]
fn next_returns_one_primary_value_and_no_signals() {
    let cfg = ATR { method1: MA::SMA(1), method2: MA::SMA(1), period: 1 };
    let mut inst = cfg.init(&bar(10, 8, 9)).unwrap();
    let out = inst.next(&bar(7, 4, 5));
    // True Range of the bar itself is 3; both smoothers have window one.
    assert_eq!(out.values, vec![3]);
    assert!(out.signals.is_empty());
}

#[test]
fn identical_runs_are_bit_identical() {
    let cfg = ATR { method1: MA::RMA(3), method2: MA::EMA(2), period: 3 };
    let mut a = cfg.init(&bar(10, 8, 9)).unwrap();
    let mut b = cfg.init(&bar(10, 8, 9)).unwrap();
    for c in candles() {
        let ra = a.next(&c);
        let rb = b.next(&c);
        assert_eq!(ra, rb);
    }
    assert_eq!(a, b);
}

#[test]
fn set_round_trips_every_declared_parameter() {
    let mut cfg = ATR::default();

    assert!(cfg.set("period", u8_to_string(42)).is_ok());
    assert_eq!(cfg.period, 42);

    let m = MA::EMA(9);
    assert!(cfg.set("method1", m.to_config_string()).is_ok());
    assert_eq!(cfg.method1, m);

    let m = MA::WMA(255);
    assert!(cfg.set("method2", m.to_config_string()).is_ok());
    assert_eq!(cfg.method2, m);

    // The other fields were left alone.
    assert_eq!(cfg.method1, MA::EMA(9));
    assert_eq!(cfg.period, 42);
}

#[test]
fn set_parses_external_strings() {
    let mut cfg = ATR::default();
    assert!(cfg.set("method1", "sma-5".to_string()).is_ok());
    assert_eq!(cfg.method1, MA::SMA(5));
    assert!(cfg.set("method2", "wma-10".to_string()).is_ok());
    assert_eq!(cfg.method2, MA::WMA(10));
    assert!(cfg.set("period", "7".to_string()).is_ok());
    assert_eq!(cfg.period, 7);
}

#[test]
fn set_unknown_name_fails_and_leaves_config_unchanged() {
    let mut cfg = ATR::default();
    let before = cfg;
    let r = cfg.set("smoothing", "rma-14".to_string());
    match r {
        Err(Error::ParameterParse(n, v)) => {
            assert_eq!(n, "smoothing");
            assert_eq!(v, "rma-14");
        },
        _ => panic!("expected a parameter-parse error"),
    }
    assert_eq!(cfg, before);
}

#[test]
fn set_bad_value_fails_and_leaves_config_unchanged() {
    let mut cfg = ATR::default();
    let before = cfg;
    assert!(matches!(cfg.set("period", "abc".to_string()), Err(Error::ParameterParse(_, _))));
    assert!(matches!(cfg.set("period", "256".to_string()), Err(Error::ParameterParse(_, _))));
    assert!(matches!(cfg.set("period", "".to_string()), Err(Error::ParameterParse(_, _))));
    assert!(matches!(cfg.set("method1", "xma-5".to_string()), Err(Error::ParameterParse(_, _))));
    assert!(matches!(cfg.set("method1", "sma5".to_string()), Err(Error::ParameterParse(_, _))));
    assert!(matches!(cfg.set("method1", "sma-".to_string()), Err(Error::ParameterParse(_, _))));
    assert!(matches!(cfg.set("method1", "sma-300".to_string()), Err(Error::ParameterParse(_, _))));
    assert!(matches!(cfg.set("method2", "RMA-5".to_string()), Err(Error::ParameterParse(_, _))));
    assert_eq!(cfg, before);
}

#[test]
fn instance_advances_with_double_smoothing() {
    // method1 = SMA(2), method2 = SMA(2); self True Ranges of the bars
    // below are 2, 2, 4.
    let cfg = ATR { method1: MA::SMA(2), method2: MA::SMA(2), period: 2 };
    let mut inst = cfg.init(&bar(10, 8, 9)).unwrap();
    // init: first smoother holds [2], second holds [0].
    let out = inst.next(&bar(11, 9, 10));
    // TR 2 -> first [2, 2] -> 2; second [0, 2] -> 1.
    assert_eq!(out.values, vec![1]);
    let out = inst.next(&bar(12, 8, 9));
    // TR 4 -> first [2, 4] -> 3; second [2, 3] -> 2.
    assert_eq!(out.values, vec![2]);
}

#[test]
fn instances_are_separate_streams() {
    let cfg = ATR { method1: MA::RMA(1), method2: MA::RMA(1), period: 1 };
    let mut a = cfg.init(&bar(10, 8, 9)).unwrap();
    let mut b = cfg.init(&bar(10, 8, 9)).unwrap();
    a.next(&bar(20, 10, 15));
    // b was not advanced; its next tick still starts from the seed state.
    let ra = ATRInstance::next(&mut b, &bar(11, 9, 10));
    assert_eq!(ra.values.len(), 1);
    assert_ne!(a, b);
}
