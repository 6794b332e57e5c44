//! A bounded single-producer/single-consumer channel.
//!
//! One fixed-capacity ring of slots is shared by exactly two handles, a
//! [`Sender`] and a [`Receiver`]. Both sides poll: `try_send` hands the value
//! back when the ring is full, `try_recv` reports when it is empty. A handle
//! is given up with `close`; the second of the two to go destroys what is
//! still buffered and frees the region.
//!
//! * [`model`] is the mathematical queue that every contract speaks of.
//! * [`cursor`] holds the arithmetic of positions and slot indices.
//! * [`ring`] is the shared region itself: control block and slot storage,
//!   with an exact contract for every operation.
//! * [`spsc`] holds the two handles, which reach the region through a lock,
//!   and the constructor.
//! * [`laws`] states what follows for whole runs of operations.
pub mod cursor;
pub mod laws;
pub mod model;
pub mod ring;
pub mod spsc;

pub use model::Phase;
pub use model::Queue;
pub use model::Step;
pub use ring::Shared;
pub use spsc::new;
pub use spsc::Receiver;
pub use spsc::Sender;
