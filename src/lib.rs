//! Streaming market statistics: a bounded window of recent observations, the
//! time bucketing of OHLCV candles, the step that decides what a pull-based
//! stream hands on, and the sampling of series for charts.
pub mod candle;
pub mod plot;
pub mod stream;
pub mod window;
