//! A bridge between a host's dynamic values and a sandboxed interpreter:
//! a codec for the values that cross the boundary, and the bookkeeping of a
//! protocol in which a run pauses at an external call and is resumed later.

pub mod assoc;
pub mod bigint;
pub mod decode;
pub mod encode;
pub mod error;
pub mod inputs;
pub mod interactive;
pub mod limits;
pub mod names;
pub mod resources;
pub mod roundtrip;
pub mod serialization;
pub mod term;
pub mod text;
pub mod value;

pub use crate::bigint::{BigInt, Sign};
pub use crate::decode::{
    decode_monty_object,
    decode_named_tuple,
    order_named_tuple_fields,
    DecodeError,
};
pub use crate::encode::{encode_bigint_triple, encode_mapset, encode_monty_object};
pub use crate::error::{
    encode_monty_exception,
    encode_resource_error,
    encode_stack_frame,
    CodeLoc,
    MontyException,
    ResourceError,
    StackFrame,
};
pub use crate::inputs::{decode_inputs, InputError};
pub use crate::interactive::{
    decode_external_result,
    encode_function_call,
    encode_kwargs,
    encode_os_call,
    encode_os_function,
    encode_run_progress,
    parse_exc_type,
    pending_call_ids,
    resume,
    resume_futures,
    run,
    run_no_limits,
    start,
    Continuation,
    ExternalResult,
    OsFunction,
    ResumeError,
    RunProgress,
    StartError,
};
pub use crate::limits::{decode_resource_limits, LimitsError, ResourceLimits, Seconds};
pub use crate::resources::{FutureSnapshotResource, RunnerResource, SnapshotResource};
pub use crate::roundtrip::{is_faithful, roundtrip};
pub use crate::serialization::{
    dump_future_snapshot,
    dump_runner,
    dump_snapshot,
    load_future_snapshot,
    load_runner,
    load_snapshot,
};
pub use crate::term::Term;
pub use crate::text::{normalize_namedtuple_type_name, pascal_case, snake_case};
pub use crate::value::Value;
