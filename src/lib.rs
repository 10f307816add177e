pub mod delay_injector;
pub mod phy;
pub mod time;

pub use delay_injector::DelayInjector;
