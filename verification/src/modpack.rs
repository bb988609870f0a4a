//! A stack of mods, read as one.

use std::collections::VecDeque;
use std::sync::Arc;
use std::sync::Mutex;
use std::sync::MutexGuard;
use vstd::prelude::*;
use vstd::std_specs::vecdeque::VecDequeAdditionalSpecFns;

use crate::entry::Entry;
use crate::entryvalue::ValueView;
use crate::errors::{located, Error, Layer, StackError};
use crate::game::Game;
use crate::id::{IdView, ID};
use crate::mods::{inserted, removed, Found, ModRead, ModWrite};

verus! {

/// What one mod answers for one table and identifier.
pub struct Answers {
    /// What it answers when asked whether it removes the record.
    pub removal: Result<bool, Error>,
    /// What it answers when asked for its own version of the record.
    pub lookup: Found,
}

/// What a mod answers for that table and identifier.
pub open spec fn answers_of<M: ModRead + ?Sized>(
    layer: &M,
    table: Seq<char>,
    id: IdView,
) -> Answers {
    Answers { removal: layer.removal(table, id), lookup: layer.lookup(table, id) }
}

/// A mod that is only read, of whatever kind.
pub struct StaticMod {
    pub layer: Box<dyn ModRead>,
}

impl StaticMod {
    /// Wraps a mod that is only read.
    pub fn new(layer: Box<dyn ModRead>) -> (r: StaticMod)
        ensures
            r == (StaticMod { layer: layer }),
    {
        StaticMod { layer }
    }
}

/// What the mods of a list answer for that table and identifier, each at
/// its place.
pub open spec fn answers_of_all(layers: Seq<StaticMod>, table: Seq<char>, id: IdView) -> Seq<
    Answers,
> {
    Seq::new(layers.len(), |i: int| answers_of(&*layers[i].layer, table, id))
}

/// What a mod settles, if it settles anything. A mod that cannot say
/// whether it removes the record settles that the question fails. One
/// that removes the record settles that there is none, whatever else it
/// holds. Otherwise its own version of the record settles the question
/// as its mark would, and a mod that holds neither settles nothing.
pub open spec fn decision(a: Answers) -> Option<Found> {
    match a.removal {
        Err(e) => Some(Err(e)),
        Ok(true) => Some(Ok(None)),
        Ok(false) => match a.lookup {
            Err(e) => Some(Err(e)),
            Ok(Some(values)) => Some(Ok(Some(values))),
            Ok(None) => None,
        },
    }
}

/// Whether the mod at place `k` is the first that settles anything.
pub open spec fn decides_at(layers: Seq<Answers>, k: int) -> bool {
    &&& 0 <= k < layers.len()
    &&& decision(layers[k]) is Some
    &&& forall|j: int| 0 <= j < k ==> decision(#[trigger] layers[j]) is None
}

/// What a stack of mods says when asked for a record: the record, that
/// it has none, or which mod failed and why.
pub type StackFound = Result<Option<Seq<ValueView>>, StackError>;

/// The place in the stack of the mod at place `k` of the list that starts
/// with the current mod and goes on with the static mods.
pub open spec fn layer_at(k: int) -> Layer {
    if k == 0 {
        Layer::Current
    } else {
        Layer::Static((k - 1) as usize)
    }
}

/// The record of a stack of mods: what the first mod settles that settles
/// anything, and what the game itself holds if none does. The mods are
/// taken from the front; the game's own mod is asked for its record only,
/// not for marks. A failure is marked with the place of the mod that
/// failed.
pub open spec fn resolve(layers: Seq<Answers>, base: Found) -> StackFound {
    if exists|k: int| decides_at(layers, k) {
        let k = choose|k: int| decides_at(layers, k);
        located(layer_at(k), decision(layers[k])->Some_0)
    } else {
        located(Layer::Game, base)
    }
}

/// Only one mod is the first to settle anything.
pub proof fn lemma_decides_once(layers: Seq<Answers>, k: int)
    requires
        decides_at(layers, k),
    ensures
        forall|c: int| decides_at(layers, c) ==> c == k,
{
    assert forall|c: int| decides_at(layers, c) implies c == k by {
        if c < k {
            assert(decision(layers[c]) is None);
        } else if k < c {
            assert(decision(layers[k]) is None);
        }
    }
}

/// The first mod that settles anything settles the question: no mod
/// behind it, nor the game, changes the result.
pub proof fn lemma_first_decision_stands(layers: Seq<Answers>, k: int, base: Found)
    requires
        decides_at(layers, k),
    ensures
        resolve(layers, base) == located(layer_at(k), decision(layers[k])->Some_0),
{
    lemma_decides_once(layers, k);
    let c = choose|c: int| decides_at(layers, c);
    assert(c == k);
}

/// A mark outweighs every record below it: where a mod removes the
/// record and no mod in front of it settles anything, the stack has no
/// such record, whatever that mod itself, the mods behind it and the game
/// hold.
pub proof fn lemma_removal_masks_lower_layers(layers: Seq<Answers>, k: int, base: Found)
    requires
        0 <= k < layers.len(),
        layers[k].removal == Ok::<bool, Error>(true),
        forall|j: int| 0 <= j < k ==> decision(#[trigger] layers[j]) is None,
    ensures
        resolve(layers, base) == Ok::<Option<Seq<ValueView>>, StackError>(None),
{
    assert(decides_at(layers, k));
    lemma_first_decision_stands(layers, k, base);
}

/// Where no mod settles anything, the game's own record stands, or the
/// failure of the game's mod.
pub proof fn lemma_undecided_falls_to_base(layers: Seq<Answers>, base: Found)
    requires
        forall|j: int| 0 <= j < layers.len() ==> decision(#[trigger] layers[j]) is None,
    ensures
        resolve(layers, base) == located(Layer::Game, base),
{
    assert forall|k: int| !decides_at(layers, k) by {
        if 0 <= k < layers.len() {
            assert(decision(layers[k]) is None);
        }
    }
}

/// The record of a stack of that current mod over those static mods,
/// where the game's own mod answers `base`.
pub open spec fn stack_record<W: ModRead + ?Sized>(
    current: &W,
    static_mods: Seq<StaticMod>,
    base: Found,
    table: Seq<char>,
    id: IdView,
) -> StackFound {
    resolve(
        seq![answers_of(current, table, id)] + answers_of_all(static_mods, table, id),
        base,
    )
}

/// A mark outweighs every record below it. Where a static mod removes
/// the record, and neither the current mod nor a static mod in front of
/// that one settles anything, the stack has no such record: whatever
/// that mod itself, the static mods behind it and the game hold.
pub proof fn lemma_static_removal_masks_lower_layers<W: ModRead + ?Sized>(
    current: &W,
    static_mods: Seq<StaticMod>,
    base: Found,
    table: Seq<char>,
    id: IdView,
    k: int,
)
    requires
        0 <= k < static_mods.len(),
        static_mods[k].layer.removal(table, id) == Ok::<bool, Error>(true),
        decision(answers_of(current, table, id)) is None,
        forall|j: int|
            0 <= j < k ==> decision(answers_of(&*(#[trigger] static_mods[j]).layer, table, id))
                is None,
    ensures
        stack_record(current, static_mods, base, table, id) == Ok::<
            Option<Seq<ValueView>>,
            StackError,
        >(None),
{
    let layers = seq![answers_of(current, table, id)] + answers_of_all(static_mods, table, id);
    assert forall|j: int| 0 <= j < k + 1 implies decision(#[trigger] layers[j]) is None by {
        if j > 0 {
            assert(layers[j] == answers_of(&*static_mods[j - 1].layer, table, id));
        }
    }
    assert(layers[k + 1] == answers_of(&*static_mods[k].layer, table, id));
    lemma_removal_masks_lower_layers(layers, k + 1, base);
}

/// What the current mod settles stands, whatever the mods behind it and
/// the game hold.
pub proof fn lemma_current_mod_wins<W: ModRead + ?Sized>(
    current: &W,
    static_mods: Seq<StaticMod>,
    base: Found,
    table: Seq<char>,
    id: IdView,
)
    requires
        decision(answers_of(current, table, id)) is Some,
    ensures
        stack_record(current, static_mods, base, table, id) == located(
            Layer::Current,
            decision(answers_of(current, table, id))->Some_0,
        ),
{
    let layers = seq![answers_of(current, table, id)] + answers_of_all(static_mods, table, id);
    assert(decides_at(layers, 0));
    lemma_first_decision_stands(layers, 0, base);
}

/// The answer of one mod as a mathematical value.
pub open spec fn entry_view(r: Result<Option<Entry>, Error>) -> Found {
    match r {
        Ok(Some(e)) => Ok(Some(e@)),
        Ok(None) => Ok(None),
        Err(e) => Err(e),
    }
}

/// The answer of a stack as a mathematical value.
pub open spec fn stack_view(r: Result<Option<Entry>, StackError>) -> StackFound {
    match r {
        Ok(Some(e)) => Ok(Some(e@)),
        Ok(None) => Ok(None),
        Err(e) => Err(e),
    }
}

/// Marks a failure with the place of the mod that failed.
pub fn locate<T>(layer: Layer, r: Result<T, Error>) -> (l: Result<T, StackError>)
    ensures
        l == located(layer, r),
{
    match r {
        Ok(t) => Ok(t),
        Err(error) => Err(StackError { layer, error }),
    }
}

/// Asks one mod. The mod is asked for the record only if it does not
/// remove it.
pub fn ask_layer<M: ModRead + ?Sized>(layer: &M, table: &str, id: &ID) -> (r: Option<
    Result<Option<Entry>, Error>,
>)
    ensures
        match r {
            Some(found) => decision(answers_of(layer, table@, id@)) == Some(entry_view(found)),
            None => decision(answers_of(layer, table@, id@)) is None,
        },
{
    match layer.is_removed(table, id) {
        Err(e) => Some(Err(e)),
        Ok(true) => Some(Ok(None)),
        Ok(false) => match layer.get_entry(table, id) {
            Err(e) => Some(Err(e)),
            Ok(Some(value)) => Some(Ok(Some(value.clone()))),
            Ok(None) => None,
        },
    }
}

/// The record of a stack of mods: the current mod is asked first, then
/// the static mods from the front, then the game's own. The first that
/// settles anything ends the search; where it fails, the failure is
/// marked with its place.
pub fn resolve_entry<W: ModRead + ?Sized, G: Game>(
    current: &W,
    static_mods: &VecDeque<StaticMod>,
    game: &G,
    table: &str,
    id: &ID,
) -> (r: Result<Option<Entry>, StackError>)
    ensures
        stack_view(r) == stack_record(
            current,
            static_mods@,
            game.base().lookup(table@, id@),
            table@,
            id@,
        ),
{
    let ghost layers = seq![answers_of(current, table@, id@)] + answers_of_all(
        static_mods@,
        table@,
        id@,
    );
    let ghost base_found = game.base().lookup(table@, id@);
    match ask_layer(current, table, id) {
        Some(found) => {
            proof {
                assert(decides_at(layers, 0));
                lemma_first_decision_stands(layers, 0, base_found);
            }
            return locate(Layer::Current, found);
        },
        None => {},
    }
    let mut i: usize = 0;
    while i < static_mods.len()
        invariant
            i <= static_mods@.len(),
            layers == seq![answers_of(current, table@, id@)] + answers_of_all(
                static_mods@,
                table@,
                id@,
            ),
            forall|j: int| 0 <= j < i + 1 ==> decision(#[trigger] layers[j]) is None,
        decreases static_mods@.len() - i,
    {
        match ask_layer(&*static_mods[i].layer, table, id) {
            Some(found) => {
                proof {
                    let asked = static_mods@[i as int];
                    assert(layers[i + 1] == answers_of(&*asked.layer, table@, id@));
                    assert(decides_at(layers, i + 1));
                    lemma_first_decision_stands(layers, i + 1, base_found);
                }
                return locate(Layer::Static(i), found);
            },
            None => {
                assert(layers[i + 1] == answers_of(&*static_mods@[i as int].layer, table@, id@));
            },
        }
        i = i + 1;
    }
    proof {
        lemma_undecided_falls_to_base(layers, base_found);
    }
    let base = game.base_mod();
    match base.get_entry(table, id) {
        Err(error) => Err(StackError { layer: Layer::Game, error }),
        Ok(Some(value)) => Ok(Some(value.clone())),
        Ok(None) => Ok(None),
    }
}

/// The lock of the standard library, `std::sync::Mutex`. Nothing is
/// known of what it guards.
#[verifier::external_type_specification]
#[verifier::external_body]
#[verifier::reject_recursive_types(T)]
pub struct ExMutex<T: ?Sized>(Mutex<T>);

/// What `std::sync::Mutex::try_lock` hands out while the lock is held,
/// `std::sync::MutexGuard`. Nothing is known of what it guards.
#[verifier::external_type_specification]
#[verifier::external_body]
#[verifier::reject_recursive_types(T)]
pub struct ExMutexGuard<'a, T: ?Sized + 'a>(MutexGuard<'a, T>);

/// Takes the lock with `Mutex::try_lock`, which does not wait: it fails
/// where the lock is held, by this thread or another, and where the lock
/// is poisoned. Nothing is claimed of the outcome; `None` stands for
/// either failure.
#[verifier::external_body]
fn lock_current<'a, W>(current_mod: &'a Mutex<W>) -> (r: Option<MutexGuard<'a, W>>) {
    current_mod.try_lock().ok()
}

/// Reads through the guard of a lock that is held, by `Deref`. Nothing is
/// claimed of what is found there: others may have written it.
#[verifier::external_body]
fn guarded<'a, 'b, W>(guard: &'b MutexGuard<'a, W>) -> (r: &'b W) {
    &**guard
}

/// Writes through the guard of a lock that is held, by `DerefMut`. Nothing
/// is claimed of what is found there: others may have written it.
#[verifier::external_body]
fn guarded_mut<'a, 'b, W>(guard: &'b mut MutexGuard<'a, W>) -> (r: &'b mut W) {
    &mut **guard
}

/// What an operation of a stack returns where the lock of the current mod
/// cannot be taken.
pub open spec fn lock_failure() -> StackError {
    StackError { layer: Layer::Current, error: Error::ConcurrencyFailure }
}

/// A stack of mods, read as one: a current mod, which alone is written,
/// over static mods, over the mod of the game itself. A mod nearer the
/// front outweighs those behind it.
///
/// The current mod is shared, behind a lock that each operation takes,
/// holds while it runs, and gives back. What the current mod holds is
/// therefore no part of the stack's value: an operation speaks of the
/// current mod that it found. No operation waits for the lock: where the
/// lock is held or poisoned, the operation fails, and may be tried
/// again.
#[verifier::reject_recursive_types(W)]
pub struct ModPack<G: Game, W: ModWrite> {
    game: Arc<G>,
    static_mods: VecDeque<StaticMod>,
    current_mod: Arc<Mutex<W>>,
}

impl<G: Game, W: ModWrite> ModPack<G, W> {
    /// The game.
    pub closed spec fn game(&self) -> G {
        *self.game
    }

    /// The static mods, from the front.
    pub closed spec fn static_mods(&self) -> Seq<StaticMod> {
        self.static_mods@
    }

    /// The lock that guards the current mod.
    pub closed spec fn current_mod(&self) -> Arc<Mutex<W>> {
        self.current_mod
    }

    /// A stack of the current mod over the game, without static mods.
    pub fn new(game: Arc<G>, current_mod: Arc<Mutex<W>>) -> (r: ModPack<G, W>)
        ensures
            r.game() == *game,
            r.static_mods() == Seq::<StaticMod>::empty(),
            r.current_mod() == current_mod,
    {
        ModPack { game, static_mods: VecDeque::new(), current_mod }
    }

    /// Puts a static mod at the front of the static mods: behind the
    /// current mod and before every mod that was added earlier, which
    /// follow in their order. The mod is wrapped as [`StaticMod::new`]
    /// wraps it, and put as [`ModPack::insert_static_mod`] puts it.
    pub fn insert_mod(&mut self, static_mod: Box<dyn ModRead>)
        ensures
            final(self).game() == old(self).game(),
            final(self).current_mod() == old(self).current_mod(),
            final(self).static_mods() == seq![final(self).static_mods()[0]]
                + old(self).static_mods(),
            call_ensures(StaticMod::new, (static_mod,), final(self).static_mods()[0]),
    {
        let wrapped = StaticMod::new(static_mod);
        self.insert_static_mod(wrapped);
        assert(self.static_mods()[0] == wrapped);
        assert(self.static_mods() =~= seq![self.static_mods()[0]] + old(self).static_mods());
    }

    /// Puts a static mod at the front of the static mods: behind the
    /// current mod and before every mod that was added earlier, which
    /// follow in their order.
    pub fn insert_static_mod(&mut self, static_mod: StaticMod)
        ensures
            final(self).game() == old(self).game(),
            final(self).current_mod() == old(self).current_mod(),
            final(self).static_mods() == seq![static_mod] + old(self).static_mods(),
    {
        self.static_mods.push_front(static_mod);
    }

    /// The record of the stack under that table and identifier. It fails
    /// where the lock cannot be taken, and as the first mod fails that
    /// fails when asked.
    pub fn get_entry(&self, table: &str, id: &ID) -> (r: Result<Option<Entry>, StackError>)
        ensures
            r == Err::<Option<Entry>, StackError>(lock_failure()) || exists|current: W|
                stack_view(r) == #[trigger] stack_record(
                    &current,
                    self.static_mods(),
                    self.game().base().lookup(table@, id@),
                    table@,
                    id@,
                ),
    {
        let guard = match lock_current(&self.current_mod) {
            Some(guard) => guard,
            None => {
                return Err(StackError { layer: Layer::Current, error: Error::ConcurrencyFailure });
            },
        };
        let current = guarded(&guard);
        let r = resolve_entry(current, &self.static_mods, &*self.game, table, id);
        assert(stack_view(r) == stack_record(
            current,
            self.static_mods(),
            self.game().base().lookup(table@, id@),
            table@,
            id@,
        ));
        r
    }

    /// Puts a record into the current mod, as its `insert` does. No other
    /// mod is written. It fails where the lock cannot be taken, and as
    /// the current mod fails.
    pub fn set_entry(&mut self, table: String, id: ID, entry: Entry) -> (r: Result<
        (),
        StackError,
    >)
        ensures
            final(self).game() == old(self).game(),
            final(self).static_mods() == old(self).static_mods(),
            final(self).current_mod() == old(self).current_mod(),
            r == Err::<(), StackError>(lock_failure()) || exists|
                before: W,
                after: W,
                written: Result<(), Error>,
            |
                #[trigger] inserted(&before, &after, table@, id@, entry@, written) && r == located(
                    Layer::Current,
                    written,
                ),
    {
        let mut guard = match lock_current(&self.current_mod) {
            Some(guard) => guard,
            None => {
                return Err(StackError { layer: Layer::Current, error: Error::ConcurrencyFailure });
            },
        };
        let current = guarded_mut(&mut guard);
        let ghost before = *current;
        let written = current.insert(table, id, entry);
        assert(inserted(&before, &*current, table@, id@, entry@, written));
        locate(Layer::Current, written)
    }

    /// Marks a record as removed in the current mod, as its `remove`
    /// does. No other mod is written. It fails where the lock cannot be
    /// taken, and as the current mod fails.
    pub fn remove(&mut self, table: String, id: ID) -> (r: Result<(), StackError>)
        ensures
            final(self).game() == old(self).game(),
            final(self).static_mods() == old(self).static_mods(),
            final(self).current_mod() == old(self).current_mod(),
            r == Err::<(), StackError>(lock_failure()) || exists|
                before: W,
                after: W,
                written: Result<(), Error>,
            |
                #[trigger] removed(&before, &after, table@, id@, written) && r == located(
                    Layer::Current,
                    written,
                ),
    {
        let mut guard = match lock_current(&self.current_mod) {
            Some(guard) => guard,
            None => {
                return Err(StackError { layer: Layer::Current, error: Error::ConcurrencyFailure });
            },
        };
        let current = guarded_mut(&mut guard);
        let ghost before = *current;
        let written = current.remove(table, id);
        assert(removed(&before, &*current, table@, id@, written));
        locate(Layer::Current, written)
    }
}

} // verus!
