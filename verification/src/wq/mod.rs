//! Work-queue primitives: the call budget gate, the backoff regulator,
//! the admission/settlement vocabulary, the batch tracker, the queue
//! model and the worker-loop decisions.
pub mod budget;
pub mod regulator;
pub mod backoff;
pub mod work_queue;
pub mod worker_pool;
