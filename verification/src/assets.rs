//! Asset indexes: resource objects named by their checksum.

use vstd::prelude::*;
use crate::checksum::{hex_encoded, Sha1Sum};
use crate::model::{lemma_view_seq_eq, view_seq};
use crate::text::{from_chars, push_chars, to_chars};

verus! {

/// Where the asset index of a version is.
#[derive(Debug)]
pub struct AssetIndexInfo {
    pub id: String,
    pub sha1: Sha1Sum,
    pub size: i64,
    pub total_size: i64,
    pub url: String,
}

/// The mathematical value of an [`AssetIndexInfo`].
pub struct AssetIndexInfoView {
    pub id: Seq<char>,
    pub sha1: Seq<u8>,
    pub size: int,
    pub total_size: int,
    pub url: Seq<char>,
}

impl View for AssetIndexInfo {
    type V = AssetIndexInfoView;

    open spec fn view(&self) -> AssetIndexInfoView {
        AssetIndexInfoView {
            id: self.id@,
            sha1: self.sha1@,
            size: self.size as int,
            total_size: self.total_size as int,
            url: self.url@,
        }
    }
}

impl Clone for AssetIndexInfo {
    fn clone(&self) -> (out: Self)
        ensures
            out@ == self@,
    {
        AssetIndexInfo {
            id: self.id.clone(),
            sha1: self.sha1,
            size: self.size,
            total_size: self.total_size,
            url: self.url.clone(),
        }
    }
}

/// A resource object: its checksum and size, and those of its compressed
/// form where there is one.
#[derive(Debug, Clone, Copy)]
pub struct AssetObject {
    pub hash: Sha1Sum,
    pub size: u64,
    pub reconstruct: Option<bool>,
    pub compressed_hash: Option<Sha1Sum>,
    pub compressed_size: Option<u64>,
}

/// The mathematical value of an [`AssetObject`].
pub struct AssetObjectView {
    pub hash: Seq<u8>,
    pub size: int,
    pub reconstruct: Option<bool>,
    pub compressed_hash: Option<Seq<u8>>,
    pub compressed_size: Option<int>,
}

impl View for AssetObject {
    type V = AssetObjectView;

    open spec fn view(&self) -> AssetObjectView {
        AssetObjectView {
            hash: self.hash@,
            size: self.size as int,
            reconstruct: self.reconstruct,
            compressed_hash: match self.compressed_hash {
                Some(hash) => Some(hash@),
                None => None,
            },
            compressed_size: match self.compressed_size {
                Some(size) => Some(size as int),
                None => None,
            },
        }
    }
}

/// The path of an object below the objects directory: the first two
/// characters of the checksum, a slash, and the checksum.
pub open spec fn object_path(hash: Seq<u8>) -> Seq<char> {
    hex_encoded(hash).take(2) + seq!['/'] + hex_encoded(hash)
}

impl AssetObject {
    /// Whether the object has a compressed form.
    pub fn has_compressed_alternative(&self) -> (has: bool)
        ensures
            has == (self@.compressed_hash is Some && self@.compressed_size is Some),
    {
        self.compressed_hash.is_some() && self.compressed_size.is_some()
    }

    /// The path of the object with checksum `hash` below the objects
    /// directory.
    pub fn create_path_from_hash(hash: &Sha1Sum) -> (path: String)
        ensures
            path@ == object_path(hash@),
    {
        let text = hash.to_string();
        let hex = to_chars(text.as_str());
        let mut out: Vec<char> = Vec::new();
        out.push(hex[0]);
        out.push(hex[1]);
        out.push('/');
        push_chars(&mut out, &hex);
        assert(out@ =~= object_path(hash@));
        from_chars(out.as_slice())
    }
}

/// One name of an asset index, with the object it stands for.
#[derive(Debug)]
pub struct AssetEntry {
    pub name: String,
    pub object: AssetObject,
}

/// The mathematical value of an [`AssetEntry`].
pub struct AssetEntryView {
    pub name: Seq<char>,
    pub object: AssetObjectView,
}

impl View for AssetEntry {
    type V = AssetEntryView;

    open spec fn view(&self) -> AssetEntryView {
        AssetEntryView { name: self.name@, object: self.object@ }
    }
}

impl Clone for AssetEntry {
    fn clone(&self) -> (out: Self)
        ensures
            out@ == self@,
    {
        AssetEntry { name: self.name.clone(), object: self.object }
    }
}

/// An asset index: names, each with its object.
#[derive(Debug)]
pub struct AssetIndex {
    pub objects: Vec<AssetEntry>,
    pub map_to_resources: bool,
    pub is_virtual: bool,
}

/// The mathematical value of an [`AssetIndex`].
pub struct AssetIndexView {
    pub objects: Seq<AssetEntryView>,
    pub map_to_resources: bool,
    pub is_virtual: bool,
}

impl View for AssetIndex {
    type V = AssetIndexView;

    open spec fn view(&self) -> AssetIndexView {
        AssetIndexView {
            objects: view_seq(self.objects@),
            map_to_resources: self.map_to_resources,
            is_virtual: self.is_virtual,
        }
    }
}

impl Clone for AssetIndex {
    fn clone(&self) -> (out: Self)
        ensures
            out@ == self@,
    {
        let objects = self.objects.clone();
        proof {
            lemma_view_seq_eq(objects@, self.objects@);
        }
        AssetIndex { objects, map_to_resources: self.map_to_resources, is_virtual: self.is_virtual }
    }
}

/// Whether one of `entries` has the checksum `hash`.
pub open spec fn has_hash(entries: Seq<AssetEntryView>, hash: Seq<u8>) -> bool {
    exists|k: int| 0 <= k < entries.len() && (#[trigger] entries[k]).object.hash == hash
}

/// The entries that are the first to bring their checksum, in order.
pub open spec fn unique_objects(entries: Seq<AssetEntryView>) -> Seq<AssetEntryView>
    decreases entries.len(),
{
    if entries.len() == 0 {
        entries
    } else {
        let earlier = unique_objects(entries.drop_last());
        if has_hash(earlier, entries.last().object.hash) {
            earlier
        } else {
            earlier.push(entries.last())
        }
    }
}

/// No two of the unique objects have the same checksum, each of them is an
/// entry of the index, and every checksum of the index is the checksum of
/// one of them.
pub proof fn lemma_unique_objects(entries: Seq<AssetEntryView>)
    ensures
        forall|i: int, j: int|
            0 <= i < j < unique_objects(entries).len() ==> (#[trigger] unique_objects(
                entries,
            )[i]).object.hash != (#[trigger] unique_objects(entries)[j]).object.hash,
        forall|i: int|
            0 <= i < unique_objects(entries).len() ==> entries.contains(
                #[trigger] unique_objects(entries)[i],
            ),
        forall|k: int|
            0 <= k < entries.len() ==> has_hash(
                unique_objects(entries),
                (#[trigger] entries[k]).object.hash,
            ),
        unique_objects(entries).len() <= entries.len(),
    decreases entries.len(),
{
    if entries.len() > 0 {
        let rest = entries.drop_last();
        let last = entries.last();
        lemma_unique_objects(rest);
        let earlier = unique_objects(rest);
        let all = unique_objects(entries);
        assert forall|i: int| 0 <= i < all.len() implies entries.contains(#[trigger] all[i]) by {
            if i < earlier.len() {
                assert(rest.contains(earlier[i]));
                let w = choose|w: int| 0 <= w < rest.len() && rest[w] == earlier[i];
                assert(entries[w] == all[i]);
            } else {
                assert(entries[entries.len() - 1] == all[i]);
            }
        }
        assert forall|k: int| 0 <= k < entries.len() implies has_hash(
            all,
            (#[trigger] entries[k]).object.hash,
        ) by {
            if k < rest.len() {
                assert(rest[k] == entries[k]);
                assert(has_hash(earlier, rest[k].object.hash));
                let w = choose|w: int|
                    0 <= w < earlier.len() && (#[trigger] earlier[w]).object.hash
                        == rest[k].object.hash;
                assert(all[w] == earlier[w]);
            } else if has_hash(earlier, last.object.hash) {
            } else {
                assert(all[all.len() - 1] == last);
            }
        }
    }
}

impl AssetIndex {
    /// Every name of the index with its object, in order.
    pub fn get_file_map(&self) -> (map: Vec<(&String, &AssetObject)>)
        ensures
            map@.len() == self@.objects.len(),
            forall|i: int|
                0 <= i < map@.len() ==> (#[trigger] map@[i]).0@ == self@.objects[i].name
                    && map@[i].1@ == self@.objects[i].object,
    {
        let mut map: Vec<(&String, &AssetObject)> = Vec::new();
        let mut i: usize = 0;
        while i < self.objects.len()
            invariant
                i <= self.objects.len(),
                map@.len() == i,
                forall|k: int|
                    0 <= k < map@.len() ==> (#[trigger] map@[k]).0@ == self@.objects[k].name
                        && map@[k].1@ == self@.objects[k].object,
            decreases self.objects.len() - i,
        {
            let entry = &self.objects[i];
            assert(self@.objects[i as int] == entry@);
            map.push((&entry.name, &entry.object));
            i += 1;
        }
        map
    }

    /// The objects of the index, each once: of the entries that have the
    /// same checksum, the first is kept, with its name.
    pub fn get_unique_objects(&self) -> (unique: Vec<(&AssetObject, &String)>)
        ensures
            unique@.len() == unique_objects(self@.objects).len(),
            forall|i: int|
                0 <= i < unique@.len() ==> (#[trigger] unique@[i]).0@ == unique_objects(
                    self@.objects,
                )[i].object && unique@[i].1@ == unique_objects(self@.objects)[i].name,
    {
        let mut unique: Vec<(&AssetObject, &String)> = Vec::new();
        let mut i: usize = 0;
        let ghost all = self@.objects;
        while i < self.objects.len()
            invariant
                i <= self.objects.len(),
                all == self@.objects,
                unique@.len() == unique_objects(all.take(i as int)).len(),
                forall|k: int|
                    0 <= k < unique@.len() ==> (#[trigger] unique@[k]).0@ == unique_objects(
                        all.take(i as int),
                    )[k].object && unique@[k].1@ == unique_objects(all.take(i as int))[k].name,
            decreases self.objects.len() - i,
        {
            let entry = &self.objects[i];
            let ghost earlier = unique_objects(all.take(i as int));
            assert(all.take(i + 1).drop_last() =~= all.take(i as int));
            assert(all.take(i + 1).last() == entry@);
            let mut seen = false;
            let mut k: usize = 0;
            while k < unique.len()
                invariant_except_break
                    !seen,
                    forall|j: int| 0 <= j < k ==> (#[trigger] earlier[j]).object.hash != entry@.object.hash,
                invariant
                    k <= unique.len(),
                    unique@.len() == earlier.len(),
                    forall|j: int|
                        0 <= j < unique@.len() ==> (#[trigger] unique@[j]).0@
                            == earlier[j].object,
                ensures
                    seen == has_hash(earlier, entry@.object.hash),
                decreases unique.len() - k,
            {
                if unique[k].0.hash == entry.object.hash {
                    assert(earlier[k as int].object.hash == entry@.object.hash);
                    seen = true;
                    break;
                }
                assert(earlier[k as int].object.hash != entry@.object.hash);
                k += 1;
            }
            if !seen {
                unique.push((&entry.object, &entry.name));
            }
            i += 1;
        }
        assert(all.take(all.len() as int) =~= all);
        unique
    }
}

} // verus!
