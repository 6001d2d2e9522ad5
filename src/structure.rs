//! The document structure: data items, loops, save frames and data blocks.
use vstd::prelude::*;

use crate::charsets::{lemma_run_end, run_end, scan_run, CharClass};
use crate::reserved::{keyword_end, scan_keyword, Keyword};
use crate::text::{advance, chars_of, slice_of};
use crate::values::{scan_tag, scan_ws_value, tag_end, ws_value_at, Value, ValueModel};
use crate::whitespace_and_comments::{
    comments_end, lemma_skip_idempotent, scan_comments, scan_whitespace, whitespace_end,
};
use crate::ParseError;

verus! {

/// Tag and value pairs, in the order in which they were read.
pub type Entries = Seq<(Seq<char>, ValueModel)>;

/// The mapping that a run of entries gives: a later entry for a tag replaces
/// an earlier one.
pub open spec fn entries_map(es: Entries) -> Map<Seq<char>, ValueModel>
    decreases es.len(),
{
    if es.len() == 0 {
        Map::empty()
    } else {
        entries_map(es.drop_last()).insert(es.last().0, es.last().1)
    }
}

/// The tags of a loop header that follow `j`, each after whitespace.
pub open spec fn tags_from(s: Seq<char>, j: int) -> (Seq<Seq<char>>, int)
    decreases s.len() - j,
{
    match whitespace_end(s, j) {
        Some(w) => match tag_end(s, w) {
            Some(t) => if j < t <= s.len() {
                let rest = tags_from(s, t);
                (seq![s.subrange(w, t)] + rest.0, rest.1)
            } else {
                (Seq::empty(), j)
            },
            None => (Seq::empty(), j),
        },
        None => (Seq::empty(), j),
    }
}

/// A loop header at `i`: `LOOP_` and one or more tags.
pub open spec fn loop_header_at(s: Seq<char>, i: int) -> Option<(Seq<Seq<char>>, int)> {
    match keyword_end(s, i, Keyword::Loop) {
        Some(k) => if tags_from(s, k).0.len() > 0 {
            Some(tags_from(s, k))
        } else {
            None
        },
        None => None,
    }
}

/// The values that follow `j`, each after whitespace.
pub open spec fn values_from(s: Seq<char>, j: int) -> (Seq<ValueModel>, int)
    decreases s.len() - j,
{
    match ws_value_at(s, j) {
        Some((_, v, e)) => if j < e <= s.len() {
            let rest = values_from(s, e);
            (seq![v] + rest.0, rest.1)
        } else {
            (Seq::empty(), j)
        },
        None => (Seq::empty(), j),
    }
}

/// Tags paired with values by position, as far as both go.
pub open spec fn zip_entries(tags: Seq<Seq<char>>, vals: Seq<ValueModel>) -> Entries {
    let n = if tags.len() < vals.len() {
        tags.len()
    } else {
        vals.len()
    };
    Seq::new(n, |k: int| (tags[k], vals[k]))
}

/// Data items at `i`: a tag, whitespace and a value; or a loop header and
/// one or more values.
pub open spec fn data_items_at(s: Seq<char>, i: int) -> Option<(Entries, int)> {
    if tag_end(s, i) is Some && ws_value_at(s, tag_end(s, i)->0) is Some {
        let t = tag_end(s, i)->0;
        let (_, v, e) = ws_value_at(s, t)->0;
        Some((seq![(s.subrange(i, t), v)], e))
    } else {
        match loop_header_at(s, i) {
            Some((tags, k)) => if values_from(s, k).0.len() > 0 {
                Some((zip_entries(tags, values_from(s, k).0), values_from(s, k).1))
            } else {
                None
            },
            None => None,
        }
    }
}

/// The data items of a save frame that follow `j`, each after whitespace.
pub open spec fn frame_items_from(s: Seq<char>, j: int) -> (Entries, int)
    decreases s.len() - j,
{
    match whitespace_end(s, j) {
        Some(w) => match data_items_at(s, w) {
            Some((es, e)) => if j < e <= s.len() {
                let rest = frame_items_from(s, e);
                (es + rest.0, rest.1)
            } else {
                (Seq::empty(), j)
            },
            None => (Seq::empty(), j),
        },
        None => (Seq::empty(), j),
    }
}

/// A save frame at `i`: `SAVE_` and a name, one or more data items, then
/// whitespace and `SAVE_`.
pub open spec fn save_frame_at(s: Seq<char>, i: int) -> Option<((Seq<char>, Entries), int)> {
    match keyword_end(s, i, Keyword::Save) {
        Some(k) => {
            let n = run_end(s, k, CharClass::NonBlank);
            let (es, m) = frame_items_from(s, n);
            if n > k && m > n && whitespace_end(s, m) is Some && keyword_end(
                s,
                whitespace_end(s, m)->0,
                Keyword::Save,
            ) is Some {
                Some(
                    (
                        (s.subrange(k, n), es),
                        keyword_end(s, whitespace_end(s, m)->0, Keyword::Save)->0,
                    ),
                )
            } else {
                None
            }
        },
        None => None,
    }
}

pub enum BlockItemModel {
    DataItems(Entries),
    SaveFrame(Seq<char>, Entries),
}

/// A data block's name and items.
pub type BlockModel = (Seq<char>, Seq<BlockItemModel>);

/// The items of a data block that follow `j`: a run of data items (each
/// after whitespace, merged into one item), else whitespace and a save frame.
pub open spec fn block_items_from(s: Seq<char>, j: int) -> (Seq<BlockItemModel>, int)
    decreases s.len() - j,
{
    let (es, f) = frame_items_from(s, j);
    let item: Option<(BlockItemModel, int)> = if f > j {
        Some((BlockItemModel::DataItems(es), f))
    } else {
        match whitespace_end(s, j) {
            Some(w) => match save_frame_at(s, w) {
                Some(((nm, fs), e)) => Some((BlockItemModel::SaveFrame(nm, fs), e)),
                None => None,
            },
            None => None,
        }
    };
    match item {
        Some((it, e)) => if j < e <= s.len() {
            let rest = block_items_from(s, e);
            (seq![it] + rest.0, rest.1)
        } else {
            (Seq::empty(), j)
        },
        None => (Seq::empty(), j),
    }
}

/// A data block at `i`: `DATA_` and a name, then its items.
pub open spec fn datablock_at(s: Seq<char>, i: int) -> Option<(BlockModel, int)> {
    match keyword_end(s, i, Keyword::Data) {
        Some(k) => {
            let n = run_end(s, k, CharClass::NonBlank);
            if n > k {
                let (items, e) = block_items_from(s, n);
                Some(((s.subrange(k, n), items), e))
            } else {
                None
            }
        },
        None => None,
    }
}

/// The data blocks that follow `j`, each after whitespace.
pub open spec fn blocks_from(s: Seq<char>, j: int) -> (Seq<BlockModel>, int)
    decreases s.len() - j,
{
    match whitespace_end(s, j) {
        Some(w) => match datablock_at(s, w) {
            Some((b, e)) => if j < e <= s.len() {
                let rest = blocks_from(s, e);
                (seq![b] + rest.0, rest.1)
            } else {
                (Seq::empty(), j)
            },
            None => (Seq::empty(), j),
        },
        None => (Seq::empty(), j),
    }
}

/// A document read from `start`: leading comments and whitespace, then data
/// blocks separated by whitespace, then whitespace. Gives the blocks and
/// where it stops.
pub open spec fn cif_from(s: Seq<char>, start: int) -> (Seq<BlockModel>, int) {
    let after_comments = match comments_end(s, start) {
        Some(c) => c,
        None => start,
    };
    let first = match whitespace_end(s, after_comments) {
        Some(w) => w,
        None => after_comments,
    };
    match datablock_at(s, first) {
        Some((b, e)) => {
            let (bs, e2) = blocks_from(s, e);
            let e3 = match whitespace_end(s, e2) {
                Some(w) => w,
                None => e2,
            };
            (seq![b] + bs, e3)
        },
        None => (Seq::empty(), first),
    }
}

/// A document: what is read from the start of `s`.
pub open spec fn cif_at(s: Seq<char>) -> (Seq<BlockModel>, int) {
    cif_from(s, 0)
}

/// Leading blanks change nothing: reading a document from `i`, or from `j`
/// after the blanks `s[i..j]` were stripped by hand, gives the same blocks
/// and stops at the same place, as long as no comment opens right at `j`.
pub proof fn lemma_leading_blanks(s: Seq<char>, i: int, j: int)
    requires
        0 <= i <= j <= s.len(),
        forall|k: int| i <= k < j ==> (s[k] == ' ' || s[k] == '\t'),
        j < s.len() ==> s[j] != '#',
    ensures
        cif_from(s, i) == cif_from(s, j),
{
    lemma_skip_idempotent(s, i, j);
    if i < j {
        assert(comments_end(s, i) is None);
    }
    assert(comments_end(s, j) is None);
}

/// Tag and value pairs, with the mapping that they give (a later pair for a
/// tag replaces an earlier one).
#[derive(Debug)]
pub struct DataItems<'s> {
    entries: Vec<(&'s str, Value<'s>)>,
}

pub open spec fn entry_view<'s>(e: (&'s str, Value<'s>)) -> (Seq<char>, ValueModel) {
    (e.0@, e.1@)
}

pub open spec fn entries_view<'s>(v: Seq<(&'s str, Value<'s>)>) -> Entries {
    v.map_values(|e: (&'s str, Value<'s>)| entry_view(e))
}

impl<'s> View for DataItems<'s> {
    type V = Entries;

    closed spec fn view(&self) -> Entries {
        entries_view(self.entries@)
    }
}

/// Whether two strings hold the same characters.
fn same_text(a: &str, b: &str) -> (r: bool)
    ensures
        r == (a@ == b@),
{
    let x = chars_of(a);
    let y = chars_of(b);
    if x.len() != y.len() {
        return false;
    }
    let mut k: usize = 0;
    while k < x.len()
        invariant
            x@ == a@,
            y@ == b@,
            x@.len() == y@.len(),
            0 <= k <= x@.len(),
            forall|m: int| 0 <= m < k ==> x@[m] == y@[m],
        decreases x@.len() - k,
    {
        if x[k] != y[k] {
            return false;
        }
        k = k + 1;
    }
    assert(x@ =~= y@);
    true
}

impl<'s> DataItems<'s> {
    /// The mapping from tag to value.
    pub open spec fn as_map(&self) -> Map<Seq<char>, ValueModel> {
        entries_map(self@)
    }

    /// The value of `tag`, where it has one.
    pub fn get(&self, tag: &str) -> (r: Option<Value<'s>>)
        ensures
            match r {
                Some(v) => self.as_map().contains_key(tag@) && self.as_map()[tag@] == v@,
                None => !self.as_map().contains_key(tag@),
            },
    {
        let ghost es = self@;
        let mut j: usize = self.entries.len();
        assert(es.subrange(0, j as int) =~= es);
        while j > 0
            invariant
                es == entries_view(self.entries@),
                j <= self.entries@.len(),
                entries_map(es.subrange(0, j as int)).contains_key(tag@) == entries_map(
                    es,
                ).contains_key(tag@),
                entries_map(es.subrange(0, j as int)).contains_key(tag@) ==> entries_map(
                    es.subrange(0, j as int),
                )[tag@] == entries_map(es)[tag@],
            decreases j,
        {
            let e = self.entries[j - 1];
            proof {
                assert(es.subrange(0, j as int).drop_last() =~= es.subrange(0, j - 1));
                assert(es.subrange(0, j as int).last() == entry_view(e));
            }
            if same_text(e.0, tag) {
                return Some(e.1);
            }
            j = j - 1;
        }
        None
    }

    /// The number of tag and value pairs read, repeated tags included.
    pub fn entry_count(&self) -> (r: usize)
        ensures
            r == self@.len(),
    {
        self.entries.len()
    }
}

/// One item of a data block: loose data items, or a named save frame.
#[derive(Debug)]
pub enum DataBlockItem<'s> {
    DataItems(DataItems<'s>),
    SaveFrame((&'s str, DataItems<'s>)),
}

impl<'s> View for DataBlockItem<'s> {
    type V = BlockItemModel;

    open spec fn view(&self) -> BlockItemModel {
        match self {
            DataBlockItem::DataItems(d) => BlockItemModel::DataItems(d@),
            DataBlockItem::SaveFrame((n, d)) => BlockItemModel::SaveFrame(n@, d@),
        }
    }
}

pub open spec fn block_view<'s>(b: (&'s str, Vec<DataBlockItem<'s>>)) -> BlockModel {
    (b.0@, b.1@.map_values(|it: DataBlockItem<'s>| it@))
}

pub open spec fn document_view<'s>(d: Seq<(&'s str, Vec<DataBlockItem<'s>>)>) -> Seq<BlockModel> {
    d.map_values(|b: (&'s str, Vec<DataBlockItem<'s>>)| block_view(b))
}

pub open spec fn texts<'s>(v: Seq<&'s str>) -> Seq<Seq<char>> {
    v.map_values(|t: &'s str| t@)
}

pub open spec fn value_models<'s>(v: Seq<Value<'s>>) -> Seq<ValueModel> {
    v.map_values(|x: Value<'s>| x@)
}

fn scan_tags_from<'s>(input: &'s str, s: &[char], j0: usize) -> (r: (Vec<&'s str>, usize))
    requires
        s@ == input@,
        j0 <= s@.len(),
    ensures
        texts(r.0@) == tags_from(s@, j0 as int).0,
        r.1 == tags_from(s@, j0 as int).1,
        j0 <= r.1 <= s@.len(),
{
    let mut acc: Vec<&'s str> = Vec::new();
    let mut j: usize = j0;
    loop
        invariant
            s@ == input@,
            j0 <= j <= s@.len(),
            texts(acc@) + tags_from(s@, j as int).0 == tags_from(s@, j0 as int).0,
            tags_from(s@, j as int).1 == tags_from(s@, j0 as int).1,
        ensures
            j0 <= j <= s@.len(),
            texts(acc@) + tags_from(s@, j as int).0 == tags_from(s@, j0 as int).0,
            tags_from(s@, j as int).1 == tags_from(s@, j0 as int).1,
            tags_from(s@, j as int) == (Seq::<Seq<char>>::empty(), j as int),
        decreases s@.len() - j,
    {
        let w = match scan_whitespace(s, j) {
            Some(w) => w,
            None => {
                break;
            },
        };
        let t = match scan_tag(s, w) {
            Some(t) => t,
            None => {
                break;
            },
        };
        let ghost before = acc@;
        let x = slice_of(input, w, t);
        acc.push(x);
        proof {
            assert(texts(acc@) =~= texts(before).push(x@));
            assert(texts(before).push(x@) + tags_from(s@, t as int).0 =~= texts(before) + (seq![x@]
                + tags_from(s@, t as int).0));
        }
        j = t;
    }
    assert(texts(acc@) + Seq::<Seq<char>>::empty() =~= texts(acc@));
    (acc, j)
}

fn scan_loop_header<'s>(input: &'s str, s: &[char], i: usize) -> (r: Option<(Vec<&'s str>, usize)>)
    requires
        s@ == input@,
        i <= s@.len(),
    ensures
        match r {
            Some((tags, k)) => loop_header_at(s@, i as int) == Some((texts(tags@), k as int)),
            None => loop_header_at(s@, i as int) is None,
        },
        r matches Some((_, k)) ==> i < k <= s@.len(),
{
    match scan_keyword(s, i, Keyword::Loop) {
        Some(k) => {
            let (tags, e) = scan_tags_from(input, s, k);
            if tags.len() > 0 {
                Some((tags, e))
            } else {
                None
            }
        },
        None => None,
    }
}

fn scan_values_from<'s>(input: &'s str, s: &[char], j0: usize) -> (r: (Vec<Value<'s>>, usize))
    requires
        s@ == input@,
        j0 <= s@.len(),
    ensures
        value_models(r.0@) == values_from(s@, j0 as int).0,
        r.1 == values_from(s@, j0 as int).1,
        j0 <= r.1 <= s@.len(),
{
    let mut acc: Vec<Value<'s>> = Vec::new();
    let mut j: usize = j0;
    loop
        invariant
            s@ == input@,
            j0 <= j <= s@.len(),
            value_models(acc@) + values_from(s@, j as int).0 == values_from(s@, j0 as int).0,
            values_from(s@, j as int).1 == values_from(s@, j0 as int).1,
        ensures
            j0 <= j <= s@.len(),
            value_models(acc@) + values_from(s@, j as int).0 == values_from(s@, j0 as int).0,
            values_from(s@, j as int).1 == values_from(s@, j0 as int).1,
            values_from(s@, j as int) == (Seq::<ValueModel>::empty(), j as int),
        decreases s@.len() - j,
    {
        let (v, e) = match scan_ws_value(input, s, j) {
            Some((_, v, e)) => (v, e),
            None => {
                break;
            },
        };
        let ghost before = acc@;
        acc.push(v);
        proof {
            assert(value_models(acc@) =~= value_models(before).push(v@));
            assert(value_models(before).push(v@) + values_from(s@, e as int).0 =~= value_models(
                before,
            ) + (seq![v@] + values_from(s@, e as int).0));
        }
        j = e;
    }
    assert(value_models(acc@) + Seq::<ValueModel>::empty() =~= value_models(acc@));
    (acc, j)
}

fn zip_items<'s>(tags: &Vec<&'s str>, vals: &Vec<Value<'s>>) -> (r: DataItems<'s>)
    ensures
        r@ == zip_entries(texts(tags@), value_models(vals@)),
{
    let n = if tags.len() < vals.len() {
        tags.len()
    } else {
        vals.len()
    };
    let ghost z = zip_entries(texts(tags@), value_models(vals@));
    let mut entries: Vec<(&'s str, Value<'s>)> = Vec::new();
    let mut k: usize = 0;
    while k < n
        invariant
            n <= tags@.len(),
            n <= vals@.len(),
            z == zip_entries(texts(tags@), value_models(vals@)),
            z.len() == n,
            0 <= k <= n,
            entries_view(entries@) =~= z.subrange(0, k as int),
        decreases n - k,
    {
        let ghost before = entries@;
        entries.push((tags[k], vals[k]));
        proof {
            assert(entries_view(entries@) =~= entries_view(before).push(z[k as int]));
            assert(z.subrange(0, k + 1) =~= z.subrange(0, k as int).push(z[k as int]));
        }
        k = k + 1;
    }
    assert(z.subrange(0, n as int) =~= z);
    DataItems { entries }
}

fn scan_data_items<'s>(input: &'s str, s: &[char], i: usize) -> (r: Option<(DataItems<'s>, usize)>)
    requires
        s@ == input@,
        i <= s@.len(),
    ensures
        match r {
            Some((d, e)) => data_items_at(s@, i as int) == Some((d@, e as int)),
            None => data_items_at(s@, i as int) is None,
        },
        r matches Some((_, e)) ==> i < e <= s@.len(),
{
    if let Some(t) = scan_tag(s, i) {
        if let Some((_, v, e)) = scan_ws_value(input, s, t) {
            let entries = vec![(slice_of(input, i, t), v)];
            let d = DataItems { entries };
            assert(d@ =~= seq![(s@.subrange(i as int, t as int), v@)]);
            return Some((d, e));
        }
    }
    match scan_loop_header(input, s, i) {
        Some((tags, k)) => {
            let (vals, e) = scan_values_from(input, s, k);
            if vals.len() > 0 {
                Some((zip_items(&tags, &vals), e))
            } else {
                None
            }
        },
        None => None,
    }
}

fn scan_frame_items_from<'s>(input: &'s str, s: &[char], j0: usize) -> (r: (DataItems<'s>, usize))
    requires
        s@ == input@,
        j0 <= s@.len(),
    ensures
        r.0@ == frame_items_from(s@, j0 as int).0,
        r.1 == frame_items_from(s@, j0 as int).1,
        j0 <= r.1 <= s@.len(),
{
    let mut acc: Vec<(&'s str, Value<'s>)> = Vec::new();
    let mut j: usize = j0;
    loop
        invariant
            s@ == input@,
            j0 <= j <= s@.len(),
            entries_view(acc@) + frame_items_from(s@, j as int).0 == frame_items_from(
                s@,
                j0 as int,
            ).0,
            frame_items_from(s@, j as int).1 == frame_items_from(s@, j0 as int).1,
        ensures
            j0 <= j <= s@.len(),
            entries_view(acc@) + frame_items_from(s@, j as int).0 == frame_items_from(
                s@,
                j0 as int,
            ).0,
            frame_items_from(s@, j as int).1 == frame_items_from(s@, j0 as int).1,
            frame_items_from(s@, j as int) == (Seq::<(Seq<char>, ValueModel)>::empty(), j as int),
        decreases s@.len() - j,
    {
        let w = match scan_whitespace(s, j) {
            Some(w) => w,
            None => {
                break;
            },
        };
        let (d, e) = match scan_data_items(input, s, w) {
            Some(p) => p,
            None => {
                break;
            },
        };
        let ghost before = acc@;
        let ghost es = d@;
        let mut more = d.entries;
        acc.append(&mut more);
        proof {
            assert(entries_view(acc@) =~= entries_view(before) + es);
            assert(entries_view(before) + es + frame_items_from(s@, e as int).0 =~= entries_view(
                before,
            ) + (es + frame_items_from(s@, e as int).0));
        }
        j = e;
    }
    assert(entries_view(acc@) + Seq::<(Seq<char>, ValueModel)>::empty() =~= entries_view(acc@));
    (DataItems { entries: acc }, j)
}

fn scan_save_frame<'s>(input: &'s str, s: &[char], i: usize) -> (r: Option<
    ((&'s str, DataItems<'s>), usize),
>)
    requires
        s@ == input@,
        i <= s@.len(),
    ensures
        match r {
            Some(((nm, d), e)) => save_frame_at(s@, i as int) == Some(
                ((nm@, d@), e as int),
            ),
            None => save_frame_at(s@, i as int) is None,
        },
        r matches Some((_, e)) ==> i < e <= s@.len(),
{
    let k = match scan_keyword(s, i, Keyword::Save) {
        Some(k) => k,
        None => {
            return None;
        },
    };
    let n = scan_run(s, k, CharClass::NonBlank);
    proof {
        lemma_run_end(s@, k as int, CharClass::NonBlank);
    }
    if n == k {
        return None;
    }
    let (d, m) = scan_frame_items_from(input, s, n);
    if m == n {
        return None;
    }
    let w = match scan_whitespace(s, m) {
        Some(w) => w,
        None => {
            return None;
        },
    };
    match scan_keyword(s, w, Keyword::Save) {
        Some(f) => Some(((slice_of(input, k, n), d), f)),
        None => None,
    }
}

pub open spec fn items_view<'s>(v: Seq<DataBlockItem<'s>>) -> Seq<BlockItemModel> {
    v.map_values(|it: DataBlockItem<'s>| it@)
}

fn scan_block_items_from<'s>(input: &'s str, s: &[char], j0: usize) -> (r: (
    Vec<DataBlockItem<'s>>,
    usize,
))
    requires
        s@ == input@,
        j0 <= s@.len(),
    ensures
        items_view(r.0@) == block_items_from(s@, j0 as int).0,
        r.1 == block_items_from(s@, j0 as int).1,
        j0 <= r.1 <= s@.len(),
{
    let mut acc: Vec<DataBlockItem<'s>> = Vec::new();
    let mut j: usize = j0;
    loop
        invariant
            s@ == input@,
            j0 <= j <= s@.len(),
            items_view(acc@) + block_items_from(s@, j as int).0 == block_items_from(
                s@,
                j0 as int,
            ).0,
            block_items_from(s@, j as int).1 == block_items_from(s@, j0 as int).1,
        ensures
            j0 <= j <= s@.len(),
            items_view(acc@) + block_items_from(s@, j as int).0 == block_items_from(
                s@,
                j0 as int,
            ).0,
            block_items_from(s@, j as int).1 == block_items_from(s@, j0 as int).1,
            block_items_from(s@, j as int) == (Seq::<BlockItemModel>::empty(), j as int),
        decreases s@.len() - j,
    {
        let (d, f) = scan_frame_items_from(input, s, j);
        let (it, e) = if f > j {
            (DataBlockItem::DataItems(d), f)
        } else {
            let w = match scan_whitespace(s, j) {
                Some(w) => w,
                None => {
                    break;
                },
            };
            match scan_save_frame(input, s, w) {
                Some((fr, e)) => (DataBlockItem::SaveFrame(fr), e),
                None => {
                    break;
                },
            }
        };
        let ghost before = acc@;
        let ghost m = it@;
        acc.push(it);
        proof {
            assert(items_view(acc@) =~= items_view(before).push(m));
            assert(items_view(before).push(m) + block_items_from(s@, e as int).0 =~= items_view(
                before,
            ) + (seq![m] + block_items_from(s@, e as int).0));
        }
        j = e;
    }
    assert(items_view(acc@) + Seq::<BlockItemModel>::empty() =~= items_view(acc@));
    (acc, j)
}

fn scan_datablock<'s>(input: &'s str, s: &[char], i: usize) -> (r: Option<
    ((&'s str, Vec<DataBlockItem<'s>>), usize),
>)
    requires
        s@ == input@,
        i <= s@.len(),
    ensures
        match r {
            Some((b, e)) => datablock_at(s@, i as int) == Some((block_view(b), e as int)),
            None => datablock_at(s@, i as int) is None,
        },
        r matches Some((_, e)) ==> i < e <= s@.len(),
{
    let k = match scan_keyword(s, i, Keyword::Data) {
        Some(k) => k,
        None => {
            return None;
        },
    };
    let n = scan_run(s, k, CharClass::NonBlank);
    proof {
        lemma_run_end(s@, k as int, CharClass::NonBlank);
    }
    if n == k {
        return None;
    }
    let (items, e) = scan_block_items_from(input, s, n);
    Some(((slice_of(input, k, n), items), e))
}

/// A data block's name and items.
pub type DataBlock<'s> = (&'s str, Vec<DataBlockItem<'s>>);

fn scan_blocks_from<'s>(input: &'s str, s: &[char], j0: usize) -> (r: (Vec<DataBlock<'s>>, usize))
    requires
        s@ == input@,
        j0 <= s@.len(),
    ensures
        document_view(r.0@) == blocks_from(s@, j0 as int).0,
        r.1 == blocks_from(s@, j0 as int).1,
        j0 <= r.1 <= s@.len(),
{
    let mut acc: Vec<DataBlock<'s>> = Vec::new();
    let mut j: usize = j0;
    loop
        invariant
            s@ == input@,
            j0 <= j <= s@.len(),
            document_view(acc@) + blocks_from(s@, j as int).0 == blocks_from(s@, j0 as int).0,
            blocks_from(s@, j as int).1 == blocks_from(s@, j0 as int).1,
        ensures
            j0 <= j <= s@.len(),
            document_view(acc@) + blocks_from(s@, j as int).0 == blocks_from(s@, j0 as int).0,
            blocks_from(s@, j as int).1 == blocks_from(s@, j0 as int).1,
            blocks_from(s@, j as int) == (Seq::<BlockModel>::empty(), j as int),
        decreases s@.len() - j,
    {
        let w = match scan_whitespace(s, j) {
            Some(w) => w,
            None => {
                break;
            },
        };
        let (b, e) = match scan_datablock(input, s, w) {
            Some(p) => p,
            None => {
                break;
            },
        };
        let ghost before = acc@;
        let ghost m = block_view(b);
        acc.push(b);
        proof {
            assert(document_view(acc@) =~= document_view(before).push(m));
            assert(document_view(before).push(m) + blocks_from(s@, e as int).0 =~= document_view(
                before,
            ) + (seq![m] + blocks_from(s@, e as int).0));
        }
        j = e;
    }
    assert(document_view(acc@) + Seq::<BlockModel>::empty() =~= document_view(acc@));
    (acc, j)
}

/// Parses a whole CIF document: its data blocks, in order. Fails, with the
/// position where parsing stopped, where the grammar does not reach the end
/// of the input; the stream is then left as it was.
pub fn cif<'s>(input: &mut &'s str) -> (r: Result<Vec<DataBlock<'s>>, ParseError>)
    ensures
        cif_at(old(input)@).1 == old(input)@.len() ==> (r matches Ok(d) && document_view(d@)
            == cif_at(old(input)@).0 && final(input)@.len() == 0),
        cif_at(old(input)@).1 != old(input)@.len() ==> r == Err::<Vec<DataBlock<'s>>, ParseError>(
            ParseError { offset: cif_at(old(input)@).1 as usize },
        ) && final(input)@ == old(input)@,
{
    let cur: &'s str = *input;
    let s = chars_of(cur);
    let after_comments = match scan_comments(&s, 0) {
        Some(c) => c,
        None => 0,
    };
    let first = match scan_whitespace(&s, after_comments) {
        Some(w) => w,
        None => after_comments,
    };
    let (blocks, end) = match scan_datablock(cur, &s, first) {
        Some((b, e)) => {
            let (mut rest, e2) = scan_blocks_from(cur, &s, e);
            let e3 = match scan_whitespace(&s, e2) {
                Some(w) => w,
                None => e2,
            };
            let mut blocks: Vec<DataBlock<'s>> = Vec::new();
            let ghost m = block_view(b);
            let ghost rv = document_view(rest@);
            blocks.push(b);
            blocks.append(&mut rest);
            assert(document_view(blocks@) =~= seq![m] + rv);
            (blocks, e3)
        },
        None => {
            let blocks: Vec<DataBlock<'s>> = Vec::new();
            assert(document_view(blocks@) =~= Seq::<BlockModel>::empty());
            (blocks, first)
        },
    };
    if end == s.len() {
        advance(input, end, s.len());
        Ok(blocks)
    } else {
        Err(ParseError { offset: end })
    }
}

} // verus!
