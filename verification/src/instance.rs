//! Reading and refilling the budget of a live instance.
use vstd::prelude::*;
use wasmer::{ExportError, Global, Instance, RuntimeError, Store, Value};
use crate::bits::{lemma_readings_round_trip, signed, to_signed, to_unsigned, unsigned};
use crate::module::REMAINING_POINTS_NAME;

verus! {

/// `wasmer::Instance`, an instantiated module. Verus sees of it what
/// `instance_exports` says.
#[verifier::external_type_specification]
#[verifier::external_body]
pub struct ExInstance(wasmer::Instance);

/// `wasmer::Global`, a global of an instance. It is carried through.
#[verifier::external_type_specification]
#[verifier::external_body]
pub struct ExGlobal(wasmer::Global);

/// `wasmer::Store`, the store that the globals of an instance live in. It
/// is carried through.
#[verifier::external_type_specification]
#[verifier::external_body]
pub struct ExStore(wasmer::Store);

/// `wasmer::RuntimeError`, why a global did not take a value. It is carried
/// through.
#[verifier::external_type_specification]
#[verifier::external_body]
pub struct ExRuntimeError(wasmer::RuntimeError);

/// What an instance exports under a name.
#[derive(Clone, Copy, Debug, PartialEq, Eq, Structural)]
pub enum ExportKind {
    Function,
    Global,
    Table,
    Memory,
    Tag,
}

/// The exports of the instance (`Instance::exports`): the kind of each, by
/// name.
pub uninterp spec fn instance_exports(instance: Instance) -> Map<Seq<char>, ExportKind>;

/// Whether `instance` exports a global under the name `remaining_points`.
pub open spec fn exports_remaining_points(instance: Instance) -> bool {
    instance_exports(instance).contains_key(REMAINING_POINTS_NAME@) && instance_exports(
        instance,
    )[REMAINING_POINTS_NAME@] == ExportKind::Global
}

/// The error for an instance that exports no global under the name
/// `remaining_points`: nothing of that name, or something else.
pub open spec fn lookup_error(instance: Instance) -> AccessError {
    if instance_exports(instance).contains_key(REMAINING_POINTS_NAME@) {
        AccessError::NotAGlobal
    } else {
        AccessError::MissingExport
    }
}

/// Why the remaining points of an instance could not be read or written:
/// its module was not processed by the metering pass, or not in this way.
#[derive(Clone, Copy, Debug, PartialEq, Eq, Structural)]
pub enum AccessError {
    /// The instance exports nothing under the name.
    MissingExport,
    /// What the instance exports under the name is no global.
    NotAGlobal,
    /// The exported global holds no 64-bit integer.
    WrongType,
    /// The exported global lives in another store than the one given.
    WrongStore,
    /// The exported global did not take the value.
    NotWritable,
}

impl AccessError {
    /// A sentence for the error, for a diagnostic or a panic message.
    pub fn message(&self) -> (text: &'static str)
        ensures
            text@ == (match *self {
                AccessError::MissingExport
                | AccessError::NotAGlobal => "Can't get `remaining_points` from Instance"@,
                AccessError::WrongType => "`remaining_points` from Instance has wrong type"@,
                AccessError::WrongStore => "`remaining_points` from Instance lives in another Store"@,
                AccessError::NotWritable => "Can't set `remaining_points` in Instance"@,
            }),
    {
        match self {
            AccessError::MissingExport
            | AccessError::NotAGlobal => "Can't get `remaining_points` from Instance",
            AccessError::WrongType => "`remaining_points` from Instance has wrong type",
            AccessError::WrongStore => "`remaining_points` from Instance lives in another Store",
            AccessError::NotWritable => "Can't set `remaining_points` in Instance",
        }
    }
}

/// What a look at a global gave.
#[derive(Clone, Copy, Debug, PartialEq, Eq, Structural)]
pub enum GlobalReading {
    /// The global holds this `i64`.
    I64(i64),
    /// The global holds a value of another type.
    OtherType,
    /// The global lives in another store than the one that was asked.
    OtherStore,
}

/// The global that `instance` exports under `name`, where it exports one
/// (`Exports::get_global`).
pub uninterp spec fn exported_global(instance: Instance, name: Seq<char>) -> Global;

/// What `global` holds in `store`: `OtherStore` where it does not live
/// there (`Global::is_from_store`), else its value (`Global::get`) where
/// that is an `i64`, and `OtherType` for a value of any other type.
pub uninterp spec fn global_reading(global: Global, store: Store) -> GlobalReading;

/// Whether `global`, which lives in `store`, takes the `i64` `value`
/// (`Global::set`): it does not where it is immutable or of another type.
pub uninterp spec fn set_succeeds(global: Global, store: Store, value: i64) -> bool;

/// The remaining points that a look at the exported global stands for: the
/// unsigned reading of its value, where it was found and holds an `i64`.
pub open spec fn points_read(found: Result<GlobalReading, AccessError>) -> Result<u64, AccessError> {
    match found {
        Ok(GlobalReading::I64(value)) => Ok(unsigned(value)),
        Ok(GlobalReading::OtherType) => Err(AccessError::WrongType),
        Ok(GlobalReading::OtherStore) => Err(AccessError::WrongStore),
        Err(e) => Err(e),
    }
}

/// The remaining points of `instance` in `store`, or why there are none to
/// be had: the instance exports no global of the name, or the global lives
/// in another store or holds no `i64`.
pub open spec fn remaining_points_of(instance: Instance, store: Store) -> Result<u64, AccessError> {
    if exports_remaining_points(instance) {
        points_read(Ok(global_reading(exported_global(instance, REMAINING_POINTS_NAME@), store)))
    } else {
        Err(lookup_error(instance))
    }
}

/// What comes of writing `points` as the remaining points of `instance` in
/// `store`.
pub open spec fn refill_outcome(instance: Instance, store: Store, points: u64) -> Result<
    (),
    AccessError,
> {
    let global = exported_global(instance, REMAINING_POINTS_NAME@);
    if !exports_remaining_points(instance) {
        Err(lookup_error(instance))
    } else if global_reading(global, store) == GlobalReading::OtherStore {
        Err(AccessError::WrongStore)
    } else if set_succeeds(global, store, signed(points)) {
        Ok(())
    } else {
        Err(AccessError::NotWritable)
    }
}

/// Turns what a look at the exported global gave into the remaining points.
pub fn remaining_points_from(found: Result<GlobalReading, AccessError>) -> (r: Result<
    u64,
    AccessError,
>)
    ensures
        r == points_read(found),
{
    match found {
        Ok(GlobalReading::I64(value)) => Ok(to_unsigned(value)),
        Ok(GlobalReading::OtherType) => Err(AccessError::WrongType),
        Ok(GlobalReading::OtherStore) => Err(AccessError::WrongStore),
        Err(e) => Err(e),
    }
}

/// Get the remaining points in an `Instance` of `store`.
///
/// This can be used in a headless engine after an ahead-of-time compilation
/// as all required state lives in the instance.
///
/// The module of the instance must have been processed with the metering
/// middleware at compile time, and the instance must live in `store`.
/// `try_get_remaining_points` asks for neither.
pub fn get_remaining_points(store: &mut Store, instance: &Instance) -> (points: u64)
    requires
        remaining_points_of(*instance, *old(store)) is Ok,
    ensures
        remaining_points_of(*instance, *old(store)) == Ok::<u64, AccessError>(points),
        remaining_points_of(*instance, *final(store)) == Ok::<u64, AccessError>(points),
{
    let global = find_global(instance, REMAINING_POINTS_NAME).expect(
        "Can't get `remaining_points` from Instance",
    );
    remaining_points_from(Ok(read_global(global, store))).expect(
        "`remaining_points` from Instance has wrong type",
    )
}

/// Get the remaining points in an `Instance` of `store`, or the reason why
/// it has none: its module was not processed with the metering middleware,
/// or it lives in another store.
pub fn try_get_remaining_points(store: &mut Store, instance: &Instance) -> (r: Result<
    u64,
    AccessError,
>)
    ensures
        r == remaining_points_of(*instance, *old(store)),
        remaining_points_of(*instance, *final(store)) == r,
{
    let found = match find_global(instance, REMAINING_POINTS_NAME) {
        Ok(global) => if is_from_store(global, store) {
            Ok(read_global(global, store))
        } else {
            Ok(GlobalReading::OtherStore)
        },
        Err(e) => Err(e),
    };
    remaining_points_from(found)
}

/// Set the provided remaining points in an `Instance` of `store`.
///
/// This can be used in a headless engine after an ahead-of-time compilation
/// as all required state lives in the instance.
///
/// The module of the instance must have been processed with the metering
/// middleware at compile time, and the instance must live in `store`.
/// `try_set_remaining_points` asks for neither.
pub fn set_remaining_points(store: &mut Store, instance: &Instance, points: u64)
    requires
        refill_outcome(*instance, *old(store), points) is Ok,
    ensures
        remaining_points_of(*instance, *final(store)) == Ok::<u64, AccessError>(points),
{
    let global = find_global(instance, REMAINING_POINTS_NAME).expect(
        "Can't get `remaining_points` from Instance",
    );
    proof {
        lemma_readings_round_trip(points, 0);
    }
    write_global(global, store, to_signed(points)).expect(
        "Can't set `remaining_points` in Instance",
    );
}

/// Set the provided remaining points in an `Instance` of `store`, or say
/// why they cannot be set: its module was not processed with the metering
/// middleware, or it lives in another store. Where the call fails, the
/// remaining points are what they were.
pub fn try_set_remaining_points(store: &mut Store, instance: &Instance, points: u64) -> (r: Result<
    (),
    AccessError,
>)
    ensures
        r == refill_outcome(*instance, *old(store), points),
        r is Ok ==> remaining_points_of(*instance, *final(store)) == Ok::<u64, AccessError>(
            points,
        ),
        r is Err ==> remaining_points_of(*instance, *final(store)) == remaining_points_of(
            *instance,
            *old(store),
        ),
{
    let global = match find_global(instance, REMAINING_POINTS_NAME) {
        Ok(global) => global,
        Err(e) => {
            return Err(e);
        },
    };
    if !is_from_store(global, store) {
        return Err(AccessError::WrongStore);
    }
    proof {
        lemma_readings_round_trip(points, 0);
    }
    match write_global(global, store, to_signed(points)) {
        Ok(()) => Ok(()),
        Err(_) => Err(AccessError::NotWritable),
    }
}

/// `Exports::get_global` on the exports of `instance`: the global exported
/// under `name`. Where nothing has that name the call fails with
/// `ExportError::Missing`, here `MissingExport`; where something else has it,
/// with `ExportError::IncompatibleType`, here `NotAGlobal`.
#[verifier::external_body]
fn find_global<'a>(instance: &'a Instance, name: &str) -> (r: Result<&'a Global, AccessError>)
    ensures
        r is Ok <==> (instance_exports(*instance).contains_key(name@) && instance_exports(
            *instance,
        )[name@] == ExportKind::Global),
        r matches Ok(global) ==> *global == exported_global(*instance, name@),
        r matches Err(e) ==> e == (if instance_exports(*instance).contains_key(name@) {
            AccessError::NotAGlobal
        } else {
            AccessError::MissingExport
        }),
{
    match instance.exports.get_global(name) {
        Ok(global) => Ok(global),
        Err(ExportError::Missing(_)) => Err(AccessError::MissingExport),
        Err(ExportError::IncompatibleType) => Err(AccessError::NotAGlobal),
    }
}

/// `Global::is_from_store`: whether `global` lives in `store`.
#[verifier::external_body]
fn is_from_store(global: &Global, store: &Store) -> (b: bool)
    ensures
        b == (global_reading(*global, *store) != GlobalReading::OtherStore),
{
    global.is_from_store(store)
}

/// `Global::get` on a global that lives in `store`: what it holds now. The
/// look changes nothing of it. (On a global of another store the call does
/// not return.)
#[verifier::external_body]
fn read_global(global: &Global, store: &mut Store) -> (reading: GlobalReading)
    requires
        global_reading(*global, *old(store)) != GlobalReading::OtherStore,
    ensures
        reading == global_reading(*global, *old(store)),
        global_reading(*global, *final(store)) == reading,
{
    match global.get(store) {
        Value::I64(value) => GlobalReading::I64(value),
        _ => GlobalReading::OtherType,
    }
}

/// `Global::set` on a global that lives in `store`, with an `i64` value.
/// It fails on a global that is immutable or of another type, and then
/// writes nothing; otherwise the global holds the value. (On a global of
/// another store the call does not return.)
#[verifier::external_body]
fn write_global(global: &Global, store: &mut Store, value: i64) -> (r: Result<(), RuntimeError>)
    requires
        global_reading(*global, *old(store)) != GlobalReading::OtherStore,
    ensures
        r is Ok <==> set_succeeds(*global, *old(store), value),
        r is Ok ==> global_reading(*global, *final(store)) == GlobalReading::I64(value),
        r is Err ==> global_reading(*global, *final(store)) == global_reading(
            *global,
            *old(store),
        ),
{
    global.set(store, Value::I64(value))
}

} // verus!
