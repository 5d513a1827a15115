//! The asset store: values shared through counted handles.
//!
//! The store owns every asset. A handle names an asset by an id that is never
//! issued twice. Cloning and dropping a handle only post a message to the
//! store's mailbox; the counts change when the store works the mailbox off,
//! once per tick, and an asset whose count reaches zero leaves the store then.

use vstd::prelude::*;
use crate::slab::Slab;

verus! {

/// A handle to an asset of the store that issued it.
#[derive(Debug)]
pub struct Asset {
    id: u64,
}

impl Asset {
    /// The id of the asset that the handle names.
    pub closed spec fn spec_id(&self) -> u64 {
        self.id
    }

    /// A handle that names the asset with this id. The store is not told: whoever
    /// makes handles this way posts their clones and drops to the store.
    pub fn from_id(id: u64) -> (asset: Asset)
        ensures
            asset.id() == id,
    {
        Asset { id }
    }

    /// The id of the asset that the handle names.
    #[verifier::when_used_as_spec(spec_id)]
    pub fn id(&self) -> (id: u64)
        ensures
            id == self.spec_id(),
    {
        self.id
    }
}

/// What a handle tells the store about itself.
#[derive(Clone, Copy, Debug, PartialEq, Eq, Structural)]
pub enum RefCountMessage {
    /// A handle to the asset with this id was dropped.
    Drop(u64),
    /// A handle to the asset with this id was cloned.
    Clone(u64),
}

/// Why the store could not take an asset.
#[derive(Clone, Copy, Debug, PartialEq, Eq, Structural)]
pub enum AssetError {
    /// Every id has been issued.
    IdsExhausted,
}

/// An asset with the number of handles that the store counts for it.
pub struct Counted<V> {
    pub value: V,
    pub ref_count: usize,
}

/// The assets after one message: a clone adds one to the count of its asset, up
/// to `usize::MAX`; a drop takes one off, and takes the asset out when that was
/// its last handle. A message for an asset that is gone changes nothing.
pub open spec fn apply_message<V>(assets: Map<u64, Counted<V>>, message: RefCountMessage) -> Map<
    u64,
    Counted<V>,
> {
    match message {
        RefCountMessage::Drop(id) => {
            if !assets.contains_key(id) {
                assets
            } else if assets[id].ref_count <= 1 {
                assets.remove(id)
            } else {
                assets.insert(
                    id,
                    Counted { value: assets[id].value, ref_count: (assets[id].ref_count - 1) as usize },
                )
            }
        },
        RefCountMessage::Clone(id) => {
            if !assets.contains_key(id) || assets[id].ref_count == usize::MAX {
                assets
            } else {
                assets.insert(
                    id,
                    Counted { value: assets[id].value, ref_count: (assets[id].ref_count + 1) as usize },
                )
            }
        },
    }
}

/// The assets after the messages, taken in the order in which they were posted.
pub open spec fn apply_messages<V>(assets: Map<u64, Counted<V>>, messages: Seq<RefCountMessage>) -> Map<
    u64,
    Counted<V>,
>
    decreases messages.len(),
{
    if messages.len() == 0 {
        assets
    } else {
        apply_message(apply_messages(assets, messages.drop_last()), messages.last())
    }
}

/// Every asset of `assets` has an id below `next_id` and a count of at least
/// one.
pub open spec fn counted_in_order<V>(assets: Map<u64, Counted<V>>, next_id: u64) -> bool {
    forall|id: u64| #[trigger]
        assets.contains_key(id) ==> id < next_id && assets[id].ref_count >= 1
}

/// A new value under a live id, with the count that the id had, leaves the
/// counts in order.
pub proof fn same_count_keeps_order<V>(
    assets: Map<u64, Counted<V>>,
    next_id: u64,
    id: u64,
    changed: Counted<V>,
)
    requires
        counted_in_order(assets, next_id),
        assets.contains_key(id),
        changed.ref_count == assets[id].ref_count,
    ensures
        counted_in_order(assets.insert(id, changed), next_id),
{
    assert forall|other: u64| #[trigger] assets.insert(id, changed).contains_key(other) implies other
        < next_id && assets.insert(id, changed)[other].ref_count >= 1 by {
        if other != id {
            assert(assets.contains_key(other));
        }
    }
}

/// A message leaves the counts in order: an asset that stays has a count of at
/// least one, and no id comes in.
pub proof fn message_keeps_order<V>(assets: Map<u64, Counted<V>>, next_id: u64, message: RefCountMessage)
    requires
        counted_in_order(assets, next_id),
    ensures
        counted_in_order(apply_message(assets, message), next_id),
{
    let after = apply_message(assets, message);
    assert forall|id: u64| #[trigger] after.contains_key(id) implies id < next_id
        && after[id].ref_count >= 1 by {
        assert(assets.contains_key(id));
    }
}

/// The assets with their counts, the id of the next asset, and the mailbox.
pub struct AssetManager<V> {
    assets: Slab<Counted<V>>,
    current_id: u64,
    mailbox: Vec<RefCountMessage>,
}

impl<V> AssetManager<V> {
    /// The live assets with their counts, by id.
    pub closed spec fn assets(self) -> Map<u64, Counted<V>> {
        self.assets.entries()
    }

    /// The messages that wait for the next reconciliation, oldest first.
    pub closed spec fn pending(self) -> Seq<RefCountMessage> {
        self.mailbox@
    }

    /// The id that the next asset gets.
    pub closed spec fn next_id(self) -> u64 {
        self.current_id
    }

    /// The arena is in order, and so are the counts: every live asset has an id
    /// that was issued and a count of at least one.
    pub closed spec fn wf(self) -> bool {
        &&& self.assets.wf()
        &&& counted_in_order(self.assets(), self.current_id)
    }

    /// What a store in order says of its assets: the id of each is below the
    /// next id, and its count is at least one.
    pub proof fn live_assets_are_counted(self)
        requires
            self.wf(),
        ensures
            counted_in_order(self.assets(), self.next_id()),
    {
    }

    /// A store without assets.
    pub fn new() -> (manager: Self)
        ensures
            manager.wf(),
            manager.assets() == (Map::<u64, Counted<V>>::empty()),
            manager.pending() == (Seq::<RefCountMessage>::empty()),
            manager.next_id() == 0,
    {
        AssetManager { assets: Slab::new(), current_id: 0, mailbox: Vec::new() }
    }

    /// A store without assets whose ids start at `first_id`.
    pub fn starting_at(first_id: u64) -> (manager: Self)
        ensures
            manager.wf(),
            manager.assets() == (Map::<u64, Counted<V>>::empty()),
            manager.pending() == (Seq::<RefCountMessage>::empty()),
            manager.next_id() == first_id,
    {
        AssetManager { assets: Slab::new(), current_id: first_id, mailbox: Vec::new() }
    }

    /// Takes `value` into the store under a fresh id, with a count of one, and
    /// hands out the first handle to it. Fails only when no id is left.
    pub fn create_asset(&mut self, value: V) -> (created: Result<Asset, AssetError>)
        requires
            old(self).wf(),
        ensures
            final(self).wf(),
            final(self).pending() == old(self).pending(),
            match created {
                Ok(asset) => {
                    &&& old(self).next_id() < u64::MAX
                    &&& asset.id() == old(self).next_id()
                    &&& final(self).next_id() == old(self).next_id() + 1
                    &&& !old(self).assets().contains_key(asset.id())
                    &&& final(self).assets() == old(self).assets().insert(
                        asset.id(),
                        Counted { value, ref_count: 1 },
                    )
                },
                Err(error) => {
                    &&& error == AssetError::IdsExhausted
                    &&& old(self).next_id() == u64::MAX
                    &&& *final(self) == *old(self)
                },
            },
    {
        if self.current_id == u64::MAX {
            return Err(AssetError::IdsExhausted);
        }
        let id = self.current_id;
        assert(!self.assets().contains_key(id));
        self.current_id = id + 1;
        self.assets.insert(id, Counted { value, ref_count: 1 });
        assert forall|other: u64| #[trigger] self.assets().contains_key(other) implies other
            < self.current_id && self.assets()[other].ref_count >= 1 by {
            if other != id {
                assert(old(self).assets().contains_key(other));
            }
        }
        Ok(Asset { id })
    }

    /// A second handle to the asset of `asset`. The store counts it at the next
    /// reconciliation.
    pub fn clone_asset(&mut self, asset: &Asset) -> (clone: Asset)
        ensures
            clone.id() == asset.id(),
            final(self).pending() == old(self).pending().push(RefCountMessage::Clone(asset.id())),
            final(self).assets() == old(self).assets(),
            final(self).next_id() == old(self).next_id(),
            old(self).wf() ==> final(self).wf(),
    {
        self.mailbox.push(RefCountMessage::Clone(asset.id));
        Asset { id: asset.id }
    }

    /// Gives the handle up. The store takes it off the count at the next
    /// reconciliation.
    pub fn drop_asset(&mut self, asset: Asset)
        ensures
            final(self).pending() == old(self).pending().push(RefCountMessage::Drop(asset.id())),
            final(self).assets() == old(self).assets(),
            final(self).next_id() == old(self).next_id(),
            old(self).wf() ==> final(self).wf(),
    {
        self.mailbox.push(RefCountMessage::Drop(asset.id));
    }

    /// Puts `message` into the mailbox, behind the messages that wait there.
    /// This is how a handle that lives outside the store reports that it was
    /// cloned or dropped.
    pub fn post(&mut self, message: RefCountMessage)
        ensures
            final(self).pending() == old(self).pending().push(message),
            final(self).assets() == old(self).assets(),
            final(self).next_id() == old(self).next_id(),
            old(self).wf() ==> final(self).wf(),
    {
        self.mailbox.push(message);
    }

    /// The asset that the handle names, while the store holds it.
    pub fn get(&self, asset: &Asset) -> (value: Option<&V>)
        requires
            self.wf(),
        ensures
            value == (if self.assets().contains_key(asset.id()) {
                Some(&self.assets()[asset.id()].value)
            } else {
                None
            }),
    {
        match self.assets.get(asset.id) {
            Some(counted) => Some(&counted.value),
            None => None,
        }
    }

    /// The asset that the handle names, for writing. Its count stays as it is.
    pub fn get_mut(&mut self, asset: &Asset) -> (value: Option<&mut V>)
        requires
            old(self).wf(),
        ensures
            final(self).pending() == old(self).pending(),
            final(self).next_id() == old(self).next_id(),
            match value {
                Some(v) => {
                    &&& old(self).assets().contains_key(asset.id())
                    &&& *v == old(self).assets()[asset.id()].value
                    &&& final(self).assets() == old(self).assets().insert(
                        asset.id(),
                        Counted { value: *final(v), ref_count: old(self).assets()[asset.id()].ref_count },
                    )
                    &&& final(self).wf()
                },
                None => !old(self).assets().contains_key(asset.id()) && *final(self) == *old(self),
            },
    {
        let ghost before = self.assets();
        let ghost next_id = self.current_id;
        proof {
            self.live_assets_are_counted();
        }
        match self.assets.get_mut(asset.id) {
            Some(counted) => {
                let value = &mut counted.value;
                proof {
                    let changed = Counted { value: *final(value), ref_count: before[asset.id].ref_count };
                    same_count_keeps_order(before, next_id, asset.id, changed);
                }
                Some(value)
            },
            None => None,
        }
    }

    /// Whether the store holds an asset with this id.
    pub fn is_live(&self, id: u64) -> (live: bool)
        ensures
            live == self.assets().contains_key(id),
    {
        self.assets.contains_key(id)
    }

    /// The number of handles that the store counts for the asset of `asset`.
    pub fn ref_count(&self, asset: &Asset) -> (count: Option<usize>)
        requires
            self.wf(),
        ensures
            count == (if self.assets().contains_key(asset.id()) {
                Some(self.assets()[asset.id()].ref_count)
            } else {
                None
            }),
    {
        match self.assets.get(asset.id) {
            Some(counted) => Some(counted.ref_count),
            None => None,
        }
    }

    /// Empties the store: every asset goes, whatever its count, and with it
    /// every pending message. Ids that were issued stay used.
    pub fn drop_all(&mut self)
        requires
            old(self).wf(),
        ensures
            final(self).wf(),
            final(self).assets() == (Map::<u64, Counted<V>>::empty()),
            final(self).pending() == (Seq::<RefCountMessage>::empty()),
            final(self).next_id() == old(self).next_id(),
    {
        self.assets = Slab::new();
        self.mailbox.clear();
    }

    /// Applies one message to the store.
    fn apply(&mut self, message: RefCountMessage)
        requires
            old(self).wf(),
        ensures
            final(self).wf(),
            final(self).assets() == apply_message(old(self).assets(), message),
            final(self).mailbox == old(self).mailbox,
            final(self).current_id == old(self).current_id,
    {
        match message {
            RefCountMessage::Drop(id) => {
                let last = match self.assets.get_mut(id) {
                    Some(counted) => {
                        if counted.ref_count <= 1 {
                            true
                        } else {
                            counted.ref_count = counted.ref_count - 1;
                            false
                        }
                    },
                    None => false,
                };
                if last {
                    self.assets.remove(id);
                }
            },
            RefCountMessage::Clone(id) => {
                match self.assets.get_mut(id) {
                    Some(counted) => {
                        if counted.ref_count < usize::MAX {
                            counted.ref_count = counted.ref_count + 1;
                        }
                    },
                    None => {},
                }
            },
        }
        proof {
            assert(self.assets() =~= apply_message(old(self).assets(), message));
            message_keeps_order(old(self).assets(), self.current_id, message);
        }
    }

    /// Works the mailbox off: applies the pending messages in the order in which
    /// they were posted and leaves the mailbox empty.
    pub fn update_ref_counts(&mut self)
        requires
            old(self).wf(),
        ensures
            final(self).wf(),
            final(self).assets() == apply_messages(old(self).assets(), old(self).pending()),
            final(self).pending() == (Seq::<RefCountMessage>::empty()),
            final(self).next_id() == old(self).next_id(),
    {
        let mut i: usize = 0;
        while i < self.mailbox.len()
            invariant
                self.wf(),
                i <= self.mailbox.len(),
                self.mailbox == old(self).mailbox,
                self.current_id == old(self).current_id,
                self.assets() == apply_messages(old(self).assets(), old(self).pending().take(i as int)),
            decreases self.mailbox.len() - i,
        {
            let message = self.mailbox[i];
            proof {
                let done = old(self).pending().take(i as int + 1);
                assert(done.drop_last() =~= old(self).pending().take(i as int));
                assert(done.last() == message);
            }
            self.apply(message);
            i = i + 1;
        }
        proof {
            assert(old(self).pending().take(i as int) =~= old(self).pending());
        }
        self.mailbox.clear();
    }
}

} // verus!

verus! {

/// One more message at the end of the mailbox is applied after all the others.
pub proof fn apply_messages_push<V>(
    assets: Map<u64, Counted<V>>,
    messages: Seq<RefCountMessage>,
    message: RefCountMessage,
)
    ensures
        apply_messages(assets, messages.push(message)) == apply_message(
            apply_messages(assets, messages),
            message,
        ),
{
    assert(messages.push(message).drop_last() =~= messages);
}

/// A clone that is dropped again before the store reconciles leaves no trace:
/// whatever was posted before the pair, the reconciled store is the one that the
/// earlier messages alone give, with the asset and its count as they were. The
/// asset is live, so its count is at least one, and the count has room for the
/// clone.
pub proof fn clone_then_drop_is_neutral<V>(
    assets: Map<u64, Counted<V>>,
    earlier: Seq<RefCountMessage>,
    id: u64,
)
    requires
        apply_messages(assets, earlier).contains_key(id),
        1 <= apply_messages(assets, earlier)[id].ref_count < usize::MAX,
    ensures
        apply_messages(
            assets,
            earlier.push(RefCountMessage::Clone(id)).push(RefCountMessage::Drop(id)),
        ) == apply_messages(assets, earlier),
{
    let before = apply_messages(assets, earlier);
    let cloned = apply_message(before, RefCountMessage::Clone(id));
    apply_messages_push(assets, earlier, RefCountMessage::Clone(id));
    apply_messages_push(assets, earlier.push(RefCountMessage::Clone(id)), RefCountMessage::Drop(id));
    assert(apply_message(cloned, RefCountMessage::Drop(id)) =~= before);
}

/// Dropping the last handle frees the asset: once the store has reconciled, the
/// id is no longer live.
pub proof fn last_drop_frees<V>(assets: Map<u64, Counted<V>>, earlier: Seq<RefCountMessage>, id: u64)
    requires
        apply_messages(assets, earlier).contains_key(id),
        apply_messages(assets, earlier)[id].ref_count == 1,
    ensures
        !apply_messages(assets, earlier.push(RefCountMessage::Drop(id))).contains_key(id),
{
    apply_messages_push(assets, earlier, RefCountMessage::Drop(id));
}

/// Messages never bring an asset to life: an id that is not live stays so.
pub proof fn messages_revive_nothing<V>(
    assets: Map<u64, Counted<V>>,
    messages: Seq<RefCountMessage>,
    id: u64,
)
    requires
        !assets.contains_key(id),
    ensures
        !apply_messages(assets, messages).contains_key(id),
    decreases messages.len(),
{
    if messages.len() > 0 {
        messages_revive_nothing(assets, messages.drop_last(), id);
    }
}

} // verus!

verus! {

/// Messages leave the counts in order: after any run of them every asset that
/// is left has an id that was issued and a count of at least one.
pub proof fn messages_keep_order<V>(
    assets: Map<u64, Counted<V>>,
    next_id: u64,
    messages: Seq<RefCountMessage>,
)
    requires
        counted_in_order(assets, next_id),
    ensures
        counted_in_order(apply_messages(assets, messages), next_id),
    decreases messages.len(),
{
    if messages.len() > 0 {
        messages_keep_order(assets, next_id, messages.drop_last());
        message_keeps_order(apply_messages(assets, messages.drop_last()), next_id, messages.last());
    }
}

} // verus!
