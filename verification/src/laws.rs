//! What holds of the pool, the context and the engine whatever they are
//! asked to do.
use vstd::prelude::*;
use crate::{Gain, Listener, LoadResult, SoundEvent, SoundName};
use crate::context::{lemma_position, position, ContextState};
use crate::device::Voice;
use crate::engine::{
    distinct_keys, lemma_absent, lemma_without, loan_of, supplied, without, Observed, SoundEngineUpdate,
    Tick,
};
use crate::errors::SoundEventError;
use crate::load::LoadedSound;
use crate::source::{
    lemma_assigned_wf, lemma_checked_wf, lemma_loaned_wf, lemma_purged,
    lemma_with_binding, total, Pool, SoundBinding, SoundSourceLoan, StreamAction, StreamEvent,
    StreamState,
    StreamingVoice,
};

verus! {

/// No two voices play under the same identity: in a pool that meets its
/// invariant, two different voices that are both bound are bound under
/// different identities.
pub proof fn lemma_exclusive(pool: Pool, v: Voice, w: Voice)
    requires
        pool.wf(),
        v != w,
        pool.binding(v) is Some,
        pool.binding(w) is Some,
    ensures
        pool.binding(v)->0.event_id != pool.binding(w)->0.event_id,
{
}

/// A voice answers to one loan at a time: two valid loans on the same voice
/// are the same loan.
pub proof fn lemma_one_loan_per_voice(pool: Pool, a: SoundSourceLoan, b: SoundSourceLoan)
    requires
        pool.loan_valid(a),
        pool.loan_valid(b),
        a.voice() == b.voice(),
    ensures
        a == b,
{
}

/// A loan is stale once its voice has been lent again: whatever loan was
/// made out before on the voice that the next request gets is not valid
/// afterwards.
pub proof fn lemma_lent_again(pool: Pool, streaming: bool, earlier: SoundSourceLoan)
    requires
        pool.wf(),
        earlier.event_id < pool.next_event,
        pool.next_loan(streaming) is Some,
        pool.next_loan(streaming)->0.voice() == earlier.voice(),
    ensures
        !pool.loaned(streaming).loan_valid(earlier),
{
    lemma_loaned_wf(pool, streaming);
    lemma_one_loan_per_voice_or_none(pool.loaned(streaming), pool.next_loan(streaming)->0, earlier);
}

/// Of two loans on one voice with different identities, at most one is valid.
pub proof fn lemma_one_loan_per_voice_or_none(pool: Pool, a: SoundSourceLoan, b: SoundSourceLoan)
    requires
        a.voice() == b.voice(),
        a.event_id != b.event_id,
        pool.loan_valid(a),
    ensures
        !pool.loan_valid(b),
{
}

/// What lending a voice does to the loans there were: each is as valid or
/// stale afterwards as it was before.
pub proof fn lemma_loaned_keeps(pool: Pool, streaming: bool, other: SoundSourceLoan)
    requires
        pool.wf(),
        pool.loan_valid(other),
    ensures
        pool.loaned(streaming).loan_valid(other),
{
    lemma_loaned_wf(pool, streaming);
    if let Some(loan) = pool.next_loan(streaming) {
        lemma_with_binding(
            pool,
            loan.voice(),
            Some(SoundBinding { event_id: loan.event_id, looping: false }),
            other.voice(),
        );
    }
}

/// Opening a voice's stream changes no binding.
pub proof fn lemma_attached(pool: Pool, i: int)
    ensures
        forall|w: Voice| #[trigger] pool.attached(i).binding(w) == pool.binding(w),
        pool.wf() ==> pool.attached(i).wf(),
        pool.attached(i).next_event == pool.next_event,
{
    let q = pool.attached(i);
    assert forall|w: Voice| #[trigger] q.binding(w) == pool.binding(w) by {}
}

/// Playing an event keeps the context's invariant.
pub proof fn lemma_played_wf(
    context: ContextState,
    event: SoundEvent,
    loan: Option<SoundSourceLoan>,
    loaded: Option<LoadResult<LoadedSound>>,
)
    requires
        context.wf(),
    ensures
        context.played(event, loan, loaded).state.wf(),
{
    let pool = context.pool;
    lemma_position(context.buffers, event.name@, 0);
    lemma_loaned_wf(pool, false);
    lemma_loaned_wf(pool, true);
    if loan is Some {
        lemma_assigned_wf(pool, loan->0, event.loop_sound);
    }
    if let Some(n) = pool.next_loan(false) {
        lemma_assigned_wf(pool.loaned(false), n, event.loop_sound);
    }
    if let Some(n) = pool.next_loan(true) {
        lemma_attached(pool.loaned(true), n.source_id as int);
        lemma_assigned_wf(pool.loaned(true).attached(n.source_id as int), n, event.loop_sound);
    }
}

/// A loan that `play_event` returns is valid right afterwards.
pub proof fn lemma_played_loan_valid(
    context: ContextState,
    event: SoundEvent,
    loan: Option<SoundSourceLoan>,
    loaded: Option<LoadResult<LoadedSound>>,
)
    requires
        context.wf(),
    ensures
        context.played(event, loan, loaded).result matches Ok(l) ==> context.played(
            event,
            loan,
            loaded,
        ).state.pool.loan_valid(l),
{
    let pool = context.pool;
    lemma_loaned_wf(pool, false);
    lemma_loaned_wf(pool, true);
    if loan is Some {
        lemma_assigned_wf(pool, loan->0, event.loop_sound);
    }
    if let Some(n) = pool.next_loan(false) {
        lemma_assigned_wf(pool.loaned(false), n, event.loop_sound);
    }
    if let Some(n) = pool.next_loan(true) {
        lemma_attached(pool.loaned(true), n.source_id as int);
        lemma_assigned_wf(pool.loaned(true).attached(n.source_id as int), n, event.loop_sound);
    }
}

/// After a purge no loan is valid, whatever it was before.
pub proof fn lemma_purge_ends_loans(context: ContextState, loan: SoundSourceLoan)
    ensures
        !context.purged().pool.loan_valid(loan),
{
    lemma_purged(context.pool);
}

/// An event that is played with a valid loan stays where it is: the loan
/// comes back unchanged, and is still valid.
pub proof fn lemma_played_keeps_loan(
    context: ContextState,
    event: SoundEvent,
    loan: SoundSourceLoan,
    loaded: Option<LoadResult<LoadedSound>>,
)
    requires
        context.wf(),
        context.pool.loan_valid(loan),
    ensures
        context.played(event, Some(loan), loaded).result == Ok::<SoundSourceLoan, SoundEventError>(
            loan,
        ),
        context.played(event, Some(loan), loaded).state.pool.loan_valid(loan),
{
    lemma_assigned_wf(context.pool, loan, event.loop_sound);
}

/// Playing an event takes no voice from another: a loan that was valid
/// before is valid afterwards.
pub proof fn lemma_played_keeps_others(
    context: ContextState,
    event: SoundEvent,
    loan: Option<SoundSourceLoan>,
    loaded: Option<LoadResult<LoadedSound>>,
    other: SoundSourceLoan,
)
    requires
        context.wf(),
        context.pool.loan_valid(other),
    ensures
        context.played(event, loan, loaded).state.pool.loan_valid(other),
{
    let pool = context.pool;
    lemma_loaned_wf(pool, false);
    lemma_loaned_wf(pool, true);
    lemma_loaned_keeps(pool, false, other);
    lemma_loaned_keeps(pool, true, other);
    if loan is Some {
        lemma_assigned_wf(pool, loan->0, event.loop_sound);
    }
    if let Some(n) = pool.next_loan(false) {
        lemma_assigned_wf(pool.loaned(false), n, event.loop_sound);
    }
    if let Some(n) = pool.next_loan(true) {
        lemma_attached(pool.loaned(true), n.source_id as int);
        lemma_assigned_wf(pool.loaned(true).attached(n.source_id as int), n, event.loop_sound);
    }
}

/// Where an entry has the name and none before it has, `position` finds it.
pub proof fn lemma_found<T>(entries: Seq<(SoundName, T)>, name: Seq<char>, from: int, at: int)
    requires
        0 <= from <= at < entries.len(),
        entries[at].0@ == name,
        forall|j: int| from <= j < at ==> entries[j].0@ != name,
    ensures
        position(entries, name, from) == Some(at),
    decreases at - from,
{
    if from < at {
        lemma_found(entries, name, from + 1, at);
    }
}

/// Taking one key's loan out leaves every other key's loan as it was.
pub proof fn lemma_without_other(loans: Seq<(String, SoundSourceLoan)>, key: Seq<char>, other: Seq<char>)
    requires
        key != other,
    ensures
        loan_of(without(loans, key), other) == loan_of(loans, other),
{
    lemma_position(loans, key, 0);
    lemma_position(loans, other, 0);
    if let Some(i) = position(loans, key, 0) {
        let rest = loans.remove(i);
        match position(loans, other, 0) {
            Some(j) => {
                let at = if j < i {
                    j
                } else {
                    j - 1
                };
                lemma_found(rest, other, 0, at);
            },
            None => {
                lemma_absent(rest, other, 0);
            },
        }
    }
}

/// Putting a loan under a key that has none gives that key the loan and
/// leaves every other key's loan as it was.
pub proof fn lemma_pushed(loans: Seq<(String, SoundSourceLoan)>, key: String, loan: SoundSourceLoan, other: Seq<char>)
    requires
        position(loans, key@, 0) is None,
    ensures
        loan_of(loans.push((key, loan)), other) == if other == key@ {
            Some(loan)
        } else {
            loan_of(loans, other)
        },
        distinct_keys(loans) ==> distinct_keys(loans.push((key, loan))),
{
    let more = loans.push((key, loan));
    lemma_position(loans, key@, 0);
    lemma_position(loans, other, 0);
    if other == key@ {
        lemma_found(more, other, 0, loans.len() as int);
    } else {
        match position(loans, other, 0) {
            Some(j) => {
                lemma_found(more, other, 0, j);
            },
            None => {
                lemma_absent(more, other, 0);
            },
        }
    }
}

/// One transient event keeps the tick's invariant, the loans, and every
/// valid loan valid.
pub proof fn lemma_transient(tick: Tick, event: SoundEvent, loaded: Option<LoadResult<LoadedSound>>)
    requires
        tick.wf(),
    ensures
        tick.transient(event, loaded).wf(),
        tick.transient(event, loaded).loans == tick.loans,
        forall|l: SoundSourceLoan|
            tick.context.pool.loan_valid(l) ==> #[trigger] tick.transient(
                event,
                loaded,
            ).context.pool.loan_valid(l),
{
    lemma_played_wf(tick.context, event, None, loaded);
    assert forall|l: SoundSourceLoan| tick.context.pool.loan_valid(l) implies #[trigger] tick.transient(
        event,
        loaded,
    ).context.pool.loan_valid(l) by {
        lemma_played_keeps_others(tick.context, event, None, loaded, l);
    }
}

/// As `lemma_transient`, for the first `n` of a tick's transient events.
pub proof fn lemma_transients(
    tick: Tick,
    sounds: Seq<SoundEvent>,
    loaded: Seq<Option<LoadResult<LoadedSound>>>,
    n: int,
)
    requires
        tick.wf(),
    ensures
        tick.transients(sounds, loaded, n).wf(),
        tick.transients(sounds, loaded, n).loans == tick.loans,
        forall|l: SoundSourceLoan|
            tick.context.pool.loan_valid(l) ==> #[trigger] tick.transients(
                sounds,
                loaded,
                n,
            ).context.pool.loan_valid(l),
    decreases n,
{
    if n > 0 {
        lemma_transients(tick, sounds, loaded, n - 1);
        lemma_transient(tick.transients(sounds, loaded, n - 1), sounds[n - 1], supplied(loaded, n - 1));
    }
}

/// One persistent event keeps the tick's invariant and every valid loan
/// valid; and a key whose loan is valid has the same loan afterwards,
/// whether the event is played under that key or under another.
pub proof fn lemma_persistent(
    tick: Tick,
    key: String,
    event: SoundEvent,
    loaded: Option<LoadResult<LoadedSound>>,
    kept: Seq<char>,
    loan: SoundSourceLoan,
)
    requires
        tick.wf(),
    ensures
        tick.persistent(key, event, loaded).wf(),
        tick.context.pool.loan_valid(loan) ==> tick.persistent(key, event, loaded).context.pool.loan_valid(
            loan,
        ),
        tick.context.pool.loan_valid(loan) && loan_of(tick.loans, kept) == Some(loan) ==> loan_of(
            tick.persistent(key, event, loaded).loans,
            kept,
        ) == Some(loan),
{
    let before = loan_of(tick.loans, key@);
    let rest = without(tick.loans, key@);
    let p = tick.context.played(event, before, loaded);
    lemma_played_wf(tick.context, event, before, loaded);
    lemma_without(tick.loans, key@);
    if tick.context.pool.loan_valid(loan) {
        lemma_played_keeps_others(tick.context, event, before, loaded, loan);
    }
    if let Ok(n) = p.result {
        lemma_pushed(rest, key, n, kept);
    }
    if kept != key@ {
        lemma_without_other(tick.loans, key@, kept);
    } else if tick.context.pool.loan_valid(loan) && before == Some(loan) {
        lemma_played_keeps_loan(tick.context, event, loan, loaded);
    }
}

/// As `lemma_persistent`, for the first `n` of a tick's persistent events.
pub proof fn lemma_persistents(
    tick: Tick,
    sounds: Seq<(String, SoundEvent)>,
    loaded: Seq<Option<LoadResult<LoadedSound>>>,
    offset: int,
    n: int,
    kept: Seq<char>,
    loan: SoundSourceLoan,
)
    requires
        tick.wf(),
    ensures
        tick.persistents(sounds, loaded, offset, n).wf(),
        tick.context.pool.loan_valid(loan) ==> tick.persistents(
            sounds,
            loaded,
            offset,
            n,
        ).context.pool.loan_valid(loan),
        tick.context.pool.loan_valid(loan) && loan_of(tick.loans, kept) == Some(loan) ==> loan_of(
            tick.persistents(sounds, loaded, offset, n).loans,
            kept,
        ) == Some(loan),
    decreases n,
{
    if n > 0 {
        lemma_persistents(tick, sounds, loaded, offset, n - 1, kept, loan);
        lemma_persistent(
            tick.persistents(sounds, loaded, offset, n - 1),
            sounds[n - 1].0,
            sounds[n - 1].1,
            supplied(loaded, offset + n - 1),
            kept,
            loan,
        );
    }
}

/// A persistent sound stays on its voice from tick to tick. If a key has a
/// loan that is still valid once the finished voices have been given back,
/// then after the tick the key has the same loan, on the same voice, and
/// the loan is valid: whether the tick names the key again (the event is
/// assigned to the voice in place) or leaves it out (the voice goes on
/// playing).
pub proof fn lemma_render_keeps_persistent(
    tick: Tick,
    master_gain: Gain,
    sounds: Seq<SoundEvent>,
    persistent_sounds: Seq<(String, SoundEvent)>,
    listener: Listener,
    static_stopped: Seq<bool>,
    streaming_stopped: Seq<bool>,
    loaded: Seq<Option<LoadResult<LoadedSound>>>,
    key: Seq<char>,
    loan: SoundSourceLoan,
)
    requires
        tick.wf(),
        loan_of(tick.loans, key) == Some(loan),
        tick.context.pool.checked(static_stopped, streaming_stopped).loan_valid(loan),
    ensures
        loan_of(
            tick.rendered(
                master_gain,
                sounds,
                persistent_sounds,
                listener,
                static_stopped,
                streaming_stopped,
                loaded,
            ).loans,
            key,
        ) == Some(loan),
        tick.rendered(
            master_gain,
            sounds,
            persistent_sounds,
            listener,
            static_stopped,
            streaming_stopped,
            loaded,
        ).context.pool.loan_valid(loan),
{
    lemma_checked_wf(tick.context.pool, static_stopped, streaming_stopped);
    let tuned = tick.cleaned(static_stopped, streaming_stopped).tuned(master_gain, listener);
    assert(tuned.context.pool == tick.context.pool.checked(static_stopped, streaming_stopped));
    assert(tuned.context.buffers == tick.context.buffers);
    assert(tuned.loans == tick.loans);
    lemma_transients(tuned, sounds, loaded, sounds.len() as int);
    let played = tuned.transients(sounds, loaded, sounds.len() as int);
    lemma_persistents(
        played,
        persistent_sounds,
        loaded,
        sounds.len() as int,
        persistent_sounds.len() as int,
        key,
        loan,
    );
}

/// Every update keeps the invariant of the context and of the loans: at no
/// time do two voices play under the same identity.
pub proof fn lemma_processed_wf(tick: Tick, update: SoundEngineUpdate, observed: Observed)
    requires
        tick.wf(),
    ensures
        tick.processed(update, observed).wf(),
{
    match update {
        SoundEngineUpdate::Preload(sounds) => {
            lemma_preloads_wf(tick, sounds@, observed.loaded@, sounds@.len() as int);
        },
        SoundEngineUpdate::DistanceModel(_) => {},
        SoundEngineUpdate::Render { master_gain, sounds, persistent_sounds, listener } => {
            lemma_checked_wf(tick.context.pool, observed.static_stopped@, observed.streaming_stopped@);
            let tuned = tick.cleaned(observed.static_stopped@, observed.streaming_stopped@).tuned(
                master_gain,
                listener,
            );
            assert(tuned.context.buffers == tick.context.buffers);
            assert(tuned.loans == tick.loans);
            lemma_transients(tuned, sounds@, observed.loaded@, sounds@.len() as int);
            let played = tuned.transients(sounds@, observed.loaded@, sounds@.len() as int);
            lemma_persistents(
                played,
                persistent_sounds@,
                observed.loaded@,
                sounds@.len() as int,
                persistent_sounds@.len() as int,
                Seq::empty(),
                SoundSourceLoan { source_id: 0, event_id: 0, streaming: false },
            );
        },
        SoundEngineUpdate::Clear => {
            lemma_purged(tick.context.pool);
        },
        SoundEngineUpdate::Stop => {
            lemma_purged(tick.context.pool);
        },
    }
}

/// Loading sounds keeps the tick's invariant.
pub proof fn lemma_preloads_wf(
    tick: Tick,
    sounds: Seq<(SoundName, Gain)>,
    loaded: Seq<Option<LoadResult<LoadedSound>>>,
    n: int,
)
    requires
        tick.wf(),
    ensures
        tick.preloads(sounds, loaded, n).wf(),
    decreases n,
{
    if n > 0 {
        lemma_preloads_wf(tick, sounds, loaded, n - 1);
        let before = tick.preloads(sounds, loaded, n - 1);
        lemma_position(before.context.buffers, sounds[n - 1].0@, 0);
    }
}

/// A sound that was loaded is in the cache: after a load that did not fail,
/// no event of that name needs the sound handed in.
pub proof fn lemma_loaded_is_cached(
    context: ContextState,
    name: SoundName,
    gain: Gain,
    loaded: Option<LoadResult<LoadedSound>>,
    loan: Option<SoundSourceLoan>,
)
    ensures
        context.loaded_sound(name, gain, loaded).result is Ok ==> context.loaded_sound(
            name,
            gain,
            loaded,
        ).state.cached(name@) && !context.loaded_sound(name, gain, loaded).state.needs_load(name@, loan),
{
    let after = context.loaded_sound(name, gain, loaded).state;
    lemma_position(context.buffers, name@, 0);
    if context.loaded_sound(name, gain, loaded).result is Ok && !context.cached(name@) {
        lemma_found(after.buffers, name@, 0, context.buffers.len() as int);
    }
}

/// What is handed in is read only where it is needed: an event that does
/// not need its sound loaded is played the same whatever is handed in.
pub proof fn lemma_unneeded_load_is_not_read(
    context: ContextState,
    event: SoundEvent,
    loan: Option<SoundSourceLoan>,
    one: Option<LoadResult<LoadedSound>>,
    other: Option<LoadResult<LoadedSound>>,
)
    requires
        !context.needs_load(event.name@, loan),
    ensures
        context.played(event, loan, one) == context.played(event, loan, other),
{
}

/// An event whose sound is in the cache is played from the cache: nothing
/// is uploaded, and the cache stays as it is.
pub proof fn lemma_cached_plays_from_cache(
    context: ContextState,
    event: SoundEvent,
    loan: Option<SoundSourceLoan>,
    one: Option<LoadResult<LoadedSound>>,
)
    requires
        context.cached(event.name@),
    ensures
        context.played(event, loan, one).state.buffers == context.buffers,
        forall|i: int|
            0 <= i < context.played(event, loan, one).script.len() ==> !(#[trigger] context.played(
                event,
                loan,
                one,
            ).script[i] is Upload),
{
}

/// A name that `position` finds is still found after an entry was added.
pub proof fn lemma_pushed_keeps<T>(entries: Seq<(SoundName, T)>, entry: (SoundName, T), name: Seq<char>)
    requires
        position(entries, name, 0) is Some,
    ensures
        position(entries.push(entry), name, 0) == position(entries, name, 0),
{
    lemma_position(entries, name, 0);
    lemma_found(entries.push(entry), name, 0, position(entries, name, 0)->0);
}

/// The cache only grows while events are played: a sound that it holds, it
/// holds afterwards.
pub proof fn lemma_played_keeps_cached(
    context: ContextState,
    event: SoundEvent,
    loan: Option<SoundSourceLoan>,
    loaded: Option<LoadResult<LoadedSound>>,
    name: Seq<char>,
)
    requires
        context.cached(name),
    ensures
        context.played(event, loan, loaded).state.cached(name),
{
    let after = context.played(event, loan, loaded).state;
    if after.buffers != context.buffers {
        lemma_pushed_keeps(context.buffers, after.buffers.last(), name);
        assert(after.buffers =~= context.buffers.push(after.buffers.last()));
    }
}

/// The cache only grows while sounds are loaded.
pub proof fn lemma_loaded_keeps_cached(
    context: ContextState,
    sound: SoundName,
    gain: Gain,
    loaded: Option<LoadResult<LoadedSound>>,
    name: Seq<char>,
)
    requires
        context.cached(name),
    ensures
        context.loaded_sound(sound, gain, loaded).state.cached(name),
{
    let after = context.loaded_sound(sound, gain, loaded).state;
    if after.buffers != context.buffers {
        lemma_pushed_keeps(context.buffers, after.buffers.last(), name);
        assert(after.buffers =~= context.buffers.push(after.buffers.last()));
    }
}

/// The cache only grows over the first `n` sounds of a preload.
pub proof fn lemma_preloads_keep_cached(
    tick: Tick,
    sounds: Seq<(SoundName, Gain)>,
    loaded: Seq<Option<LoadResult<LoadedSound>>>,
    n: int,
    name: Seq<char>,
)
    requires
        tick.context.cached(name),
    ensures
        tick.preloads(sounds, loaded, n).context.cached(name),
    decreases n,
{
    if n > 0 {
        lemma_preloads_keep_cached(tick, sounds, loaded, n - 1, name);
        lemma_loaded_keeps_cached(
            tick.preloads(sounds, loaded, n - 1).context,
            sounds[n - 1].0,
            sounds[n - 1].1,
            supplied(loaded, n - 1),
            name,
        );
    }
}

/// The cache only grows over the first `n` transient events of a tick.
pub proof fn lemma_transients_keep_cached(
    tick: Tick,
    sounds: Seq<SoundEvent>,
    loaded: Seq<Option<LoadResult<LoadedSound>>>,
    n: int,
    name: Seq<char>,
)
    requires
        tick.context.cached(name),
    ensures
        tick.transients(sounds, loaded, n).context.cached(name),
    decreases n,
{
    if n > 0 {
        lemma_transients_keep_cached(tick, sounds, loaded, n - 1, name);
        lemma_played_keeps_cached(
            tick.transients(sounds, loaded, n - 1).context,
            sounds[n - 1],
            None,
            supplied(loaded, n - 1),
            name,
        );
    }
}

/// The cache only grows over the first `n` persistent events of a tick.
pub proof fn lemma_persistents_keep_cached(
    tick: Tick,
    sounds: Seq<(String, SoundEvent)>,
    loaded: Seq<Option<LoadResult<LoadedSound>>>,
    offset: int,
    n: int,
    name: Seq<char>,
)
    requires
        tick.context.cached(name),
    ensures
        tick.persistents(sounds, loaded, offset, n).context.cached(name),
    decreases n,
{
    if n > 0 {
        lemma_persistents_keep_cached(tick, sounds, loaded, offset, n - 1, name);
        let before = tick.persistents(sounds, loaded, offset, n - 1);
        lemma_played_keeps_cached(
            before.context,
            sounds[n - 1].1,
            loan_of(before.loans, sounds[n - 1].0@),
            supplied(loaded, offset + n - 1),
            name,
        );
    }
}

/// What `process` reads, `load_requests` has asked for: wherever the
/// engine, at an item's turn, needs the item's sound handed in, the item
/// was marked when the update began.
pub proof fn lemma_requests_suffice(tick: Tick, update: SoundEngineUpdate, observed: Observed, k: int)
    requires
        tick.wf(),
        tick.needed(update, observed, k),
    ensures
        tick.requested(update, observed, k),
{
    match update {
        SoundEngineUpdate::Preload(sounds) => {
            if tick.context.cached(sounds@[k].0@) {
                lemma_preloads_keep_cached(tick, sounds@, observed.loaded@, k, sounds@[k].0@);
            }
        },
        SoundEngineUpdate::Render { master_gain, sounds, persistent_sounds, listener } => {
            let tuned = tick.cleaned(observed.static_stopped@, observed.streaming_stopped@).tuned(
                master_gain,
                listener,
            );
            lemma_checked_wf(tick.context.pool, observed.static_stopped@, observed.streaming_stopped@);
            assert(tuned.context.buffers == tick.context.buffers);
            assert(tuned.loans == tick.loans);
            assert(tuned.context.pool == tick.context.pool.checked(
                observed.static_stopped@,
                observed.streaming_stopped@,
            ));
            if 0 <= k < sounds@.len() {
                if tick.context.cached(sounds@[k].name@) {
                    lemma_transients_keep_cached(tuned, sounds@, observed.loaded@, k, sounds@[k].name@);
                }
            } else {
                let j = k - sounds@.len();
                let key = persistent_sounds@[j].0@;
                let name = persistent_sounds@[j].1.name@;
                let played = tuned.transients(sounds@, observed.loaded@, sounds@.len() as int);
                lemma_transients(tuned, sounds@, observed.loaded@, sounds@.len() as int);
                if tick.context.cached(name) {
                    lemma_transients_keep_cached(tuned, sounds@, observed.loaded@, sounds@.len() as int, name);
                    lemma_persistents_keep_cached(
                        played,
                        persistent_sounds@,
                        observed.loaded@,
                        sounds@.len() as int,
                        j,
                        name,
                    );
                } else if let Some(loan) = loan_of(tick.loans, key) {
                    if tuned.context.pool.loan_valid(loan) {
                        lemma_persistents(
                            played,
                            persistent_sounds@,
                            observed.loaded@,
                            sounds@.len() as int,
                            j,
                            key,
                            loan,
                        );
                    }
                }
            }
        },
        _ => {},
    }
}

/// A voice is only ever given a buffer that the cache holds: wherever the
/// script of an event binds a buffer, the cache holds a sound of that name
/// once the event is played.
pub proof fn lemma_bound_buffer_is_cached(
    context: ContextState,
    event: SoundEvent,
    loan: Option<SoundSourceLoan>,
    loaded: Option<LoadResult<LoadedSound>>,
    i: int,
)
    requires
        0 <= i < context.played(event, loan, loaded).script.len(),
        context.played(event, loan, loaded).script[i] is BindBuffer,
    ensures
        context.played(event, loan, loaded).state.cached(
            context.played(event, loan, loaded).script[i]->BindBuffer_name@,
        ),
{
    let after = context.played(event, loan, loaded).state;
    lemma_position(context.buffers, event.name@, 0);
    if after.buffers != context.buffers {
        lemma_found(after.buffers, event.name@, 0, context.buffers.len() as int);
    }
}

/// No item holds up another: the first `n` sounds of a preload leave `n`
/// outcomes.
pub proof fn lemma_preloads_outcomes(
    tick: Tick,
    sounds: Seq<(SoundName, Gain)>,
    loaded: Seq<Option<LoadResult<LoadedSound>>>,
    n: int,
)
    requires
        0 <= n,
    ensures
        tick.preloads(sounds, loaded, n).outcomes.len() == tick.outcomes.len() + n,
    decreases n,
{
    if n > 0 {
        lemma_preloads_outcomes(tick, sounds, loaded, n - 1);
    }
}

/// The first `n` transient events of a tick leave `n` outcomes.
pub proof fn lemma_transients_outcomes(
    tick: Tick,
    sounds: Seq<SoundEvent>,
    loaded: Seq<Option<LoadResult<LoadedSound>>>,
    n: int,
)
    requires
        0 <= n,
    ensures
        tick.transients(sounds, loaded, n).outcomes.len() == tick.outcomes.len() + n,
    decreases n,
{
    if n > 0 {
        lemma_transients_outcomes(tick, sounds, loaded, n - 1);
    }
}

/// The first `n` persistent events of a tick leave `n` outcomes.
pub proof fn lemma_persistents_outcomes(
    tick: Tick,
    sounds: Seq<(String, SoundEvent)>,
    loaded: Seq<Option<LoadResult<LoadedSound>>>,
    offset: int,
    n: int,
)
    requires
        0 <= n,
    ensures
        tick.persistents(sounds, loaded, offset, n).outcomes.len() == tick.outcomes.len() + n,
    decreases n,
{
    if n > 0 {
        lemma_persistents_outcomes(tick, sounds, loaded, offset, n - 1);
    }
}

/// Every item of an update gets its outcome, whatever became of the items
/// before it: an update leaves as many outcomes as it has items.
pub proof fn lemma_every_item_has_an_outcome(tick: Tick, update: SoundEngineUpdate, observed: Observed)
    ensures
        tick.processed(update, observed).outcomes.len() == tick.outcomes.len() + Tick::items(update),
{
    match update {
        SoundEngineUpdate::Preload(sounds) => {
            lemma_preloads_outcomes(tick, sounds@, observed.loaded@, sounds@.len() as int);
        },
        SoundEngineUpdate::Render { master_gain, sounds, persistent_sounds, listener } => {
            let tuned = tick.cleaned(observed.static_stopped@, observed.streaming_stopped@).tuned(
                master_gain,
                listener,
            );
            lemma_transients_outcomes(tuned, sounds@, observed.loaded@, sounds@.len() as int);
            lemma_persistents_outcomes(
                tuned.transients(sounds@, observed.loaded@, sounds@.len() as int),
                persistent_sounds@,
                observed.loaded@,
                sounds@.len() as int,
                persistent_sounds@.len() as int,
            );
        },
        _ => {},
    }
}

/// After a purge the cache is empty and no loan is valid, so every event
/// needs its sound handed in again, whatever was loaded before; and with
/// nothing handed in it is not played.
pub proof fn lemma_purged_needs_load(context: ContextState, event: SoundEvent, loan: Option<SoundSourceLoan>)
    ensures
        context.purged().buffers.len() == 0,
        context.purged().needs_load(event.name@, loan),
        context.purged().played(event, loan, None).result is Err,
        context.purged().played(event, loan, None).state == context.purged(),
{
    lemma_purged(context.pool);
}

/// In the script of a purge every voice is released before the buffers are
/// dropped: the last command drops the buffers, and every command before it
/// releases a voice.
pub proof fn lemma_purge_order(context: ContextState, i: int)
    requires
        0 <= i < context.purge_script().len(),
    ensures
        i == context.purge_script().len() - 1 ==> context.purge_script()[i] is ClearBuffers,
        i < context.purge_script().len() - 1 ==> context.purge_script()[i] is Release,
{
}

/// A refill ends only when the queue is full enough or the stream has no
/// more to give: after a step that answers `Done`, the stream is not open
/// any more, or at least `target` milliseconds are queued.
pub proof fn lemma_refill_done(voice: StreamingVoice, event: StreamEvent, target: u64)
    ensures
        voice.step(event, target).1 == StreamAction::Done ==> voice.step(event, target).0.stream
            != StreamState::Open || total(voice.step(event, target).0.queued) >= target,
{
}

/// A queue that was topped up does not run empty before the next refill
/// comes. If at least `target` milliseconds were queued and less than
/// `target` milliseconds have gone by since, then the slots that the device
/// can have finished, which together last no longer than the time gone by,
/// are not all the slots there are.
pub proof fn lemma_queue_outlasts(queued: Seq<u64>, target: u64, elapsed: u64, finished: int)
    requires
        total(queued) >= target,
        elapsed < target,
        0 <= finished <= queued.len(),
        total(queued.take(finished)) <= elapsed,
    ensures
        finished < queued.len(),
{
    if finished == queued.len() {
        assert(queued.take(finished) =~= queued);
    }
}

/// A streaming voice is kept ahead of the device. After a refill has ended
/// with the stream still open, and for as long as less than `target`
/// milliseconds have gone by, the device cannot have finished every slot
/// of the queue: the voice does not run dry before the next refill, if
/// that comes in time.
pub proof fn lemma_refilled_voice_outlasts(
    voice: StreamingVoice,
    event: StreamEvent,
    target: u64,
    elapsed: u64,
    finished: int,
)
    requires
        voice.step(event, target).1 == StreamAction::Done,
        voice.step(event, target).0.stream == StreamState::Open,
        elapsed < target,
        0 <= finished <= voice.step(event, target).0.queued.len(),
        total(voice.step(event, target).0.queued.take(finished)) <= elapsed,
    ensures
        finished < voice.step(event, target).0.queued.len(),
{
    lemma_refill_done(voice, event, target);
    lemma_queue_outlasts(voice.step(event, target).0.queued, target, elapsed, finished);
}

} // verus!
