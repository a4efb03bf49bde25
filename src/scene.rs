//! Remote identifiers and the cache of the active scene.

use vstd::prelude::*;

verus! {

/// A scene or input of the remote session: its name and its unique identifier.
#[derive(Debug, PartialEq, Eq)]
pub struct RemoteId {
    pub name: String,
    pub uuid: u128,
}

impl Clone for RemoteId {
    fn clone(&self) -> (r: Self)
        ensures
            r == *self,
    {
        RemoteId { name: self.name.clone(), uuid: self.uuid }
    }
}

/// An item of a scene: the name of its source and its identifier in the scene.
#[derive(Debug, PartialEq, Eq)]
pub struct SceneItem {
    pub name: String,
    pub id: i64,
}

/// The identifier named `name` in a catalog; where a name occurs twice the
/// later entry wins, as in a map filled in order.
pub open spec fn id_named(ids: Seq<RemoteId>, name: Seq<char>) -> Option<RemoteId>
    decreases ids.len(),
{
    if ids.len() == 0 {
        None
    } else if ids.last().name@ == name {
        Some(ids.last())
    } else {
        id_named(ids.drop_last(), name)
    }
}

/// The identifier of the item named `name`; the later entry wins.
pub open spec fn item_named(items: Seq<SceneItem>, name: Seq<char>) -> Option<i64>
    decreases items.len(),
{
    if items.len() == 0 {
        None
    } else if items.last().name@ == name {
        Some(items.last().id)
    } else {
        item_named(items.drop_last(), name)
    }
}

/// Looks a name up in a catalog of remote identifiers.
pub fn find_id(ids: &Vec<RemoteId>, name: &String) -> (r: Option<RemoteId>)
    ensures
        r == id_named(ids@, name@),
{
    let mut i = ids.len();
    assert(ids@.take(i as int) =~= ids@);
    while i > 0
        invariant
            i <= ids.len(),
            id_named(ids@.take(i as int), name@) == id_named(ids@, name@),
        decreases i,
    {
        assert(ids@.take(i as int).drop_last() =~= ids@.take(i - 1));
        if ids[i - 1].name == *name {
            return Some(ids[i - 1].clone());
        }
        i = i - 1;
    }
    assert(ids@.take(0) =~= Seq::<RemoteId>::empty());
    None
}

/// The active scene and the items it holds, as last observed. The two parts
/// are only ever replaced together.
#[derive(Debug)]
pub struct SceneCache {
    scene: RemoteId,
    items: Vec<SceneItem>,
}

impl View for SceneCache {
    type V = (RemoteId, Seq<SceneItem>);

    closed spec fn view(&self) -> (RemoteId, Seq<SceneItem>) {
        (self.scene, self.items@)
    }
}

impl SceneCache {
    /// The snapshot of a scene and its items, as observed at connect time.
    pub fn new(scene: RemoteId, items: Vec<SceneItem>) -> (r: SceneCache)
        ensures
            r@ == (scene, items@),
    {
        SceneCache { scene, items }
    }

    /// The active scene.
    pub fn scene(&self) -> (r: &RemoteId)
        ensures
            *r == self@.0,
    {
        &self.scene
    }

    /// The items of the active scene.
    pub fn items(&self) -> (r: &Vec<SceneItem>)
        ensures
            r@ == self@.1,
    {
        &self.items
    }

    /// The identifier of the active scene's item named `name`.
    pub fn item_id(&self, name: &String) -> (r: Option<i64>)
        ensures
            r == item_named(self@.1, name@),
    {
        let mut i = self.items.len();
        assert(self.items@.take(i as int) =~= self.items@);
        while i > 0
            invariant
                i <= self.items.len(),
                item_named(self.items@.take(i as int), name@) == item_named(self.items@, name@),
            decreases i,
        {
            assert(self.items@.take(i as int).drop_last() =~= self.items@.take(i - 1));
            if self.items[i - 1].name == *name {
                return Some(self.items[i - 1].id);
            }
            i = i - 1;
        }
        proof {
            assert(self.items@.take(0) =~= Seq::<SceneItem>::empty());
        }
        None
    }

    /// Installs the outcome of querying the items of `scene`: on success the
    /// whole snapshot is replaced by the new scene and its items; on failure
    /// the previous snapshot is kept unchanged and the failure handed back.
    pub fn replace<E>(&mut self, scene: RemoteId, fetched: Result<Vec<SceneItem>, E>) -> (r: Result<
        (),
        E,
    >)
        ensures
            match fetched {
                Ok(items) => r is Ok && final(self)@ == (scene, items@),
                Err(e) => r == Err::<(), E>(e) && final(self)@ == old(self)@,
            },
    {
        match fetched {
            Ok(items) => {
                *self = SceneCache { scene, items };
                Ok(())
            },
            Err(e) => Err(e),
        }
    }
}

} // verus!
