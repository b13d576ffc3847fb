//! Host-side core of an NVMe driver: register map, command encoding, queue
//! pairs, PRP construction and the controller and namespace protocols, written
//! so that every decision is taken here and every access to the device is left
//! to the host.

pub mod bits;
pub mod bringup;
pub mod bus;
pub mod cmd;
pub mod ctrl;
pub mod dev;
pub mod err;
pub mod fleet;
pub mod id;
pub mod logs;
pub mod ns;
pub mod power;
pub mod queue;
pub mod ram;
pub mod reg;
pub mod wire;

pub use crate::ctrl::Ctrl;
pub use crate::dev::NVMeDev;
pub use crate::err::{NVMeError, Result};
pub use crate::id::{CtrlId, LbaFormat, LogErr, LogSmart, NsId, PwrStDesc};
pub use crate::ns::Ns;
pub use crate::queue::{Cq, Sq};
pub use crate::ram::Dma;
