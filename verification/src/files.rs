//! The names of a table's files.

use vstd::prelude::*;
use crate::text;

verus! {

/// The directory of a database.
pub open spec fn base_dir(db: Seq<char>) -> Seq<char> {
    "database/base/"@ + db
}

/// A file in the directory of a database.
pub open spec fn base_file(db: Seq<char>, name: Seq<char>) -> Seq<char> {
    "database/base/"@ + db + "/"@ + name
}

/// The heap file of a table.
pub open spec fn heap_file(db: Seq<char>, table: Seq<char>) -> Seq<char> {
    "database/base/"@ + db + "/"@ + table + ".dat"@
}

/// The free-space-map fork of a heap file.
pub open spec fn fsm_file(heap: Seq<char>) -> Seq<char> {
    heap + ".fsm"@
}

/// The index file of a table that has a single, unnamed index.
pub open spec fn legacy_index_file(db: Seq<char>, table: Seq<char>) -> Seq<char> {
    "database/base/"@ + db + "/"@ + table + ".idx"@
}

/// The file of a named index.
pub open spec fn named_index_file(db: Seq<char>, table: Seq<char>, index: Seq<char>) -> Seq<char> {
    "database/base/"@ + db + "/"@ + table + "."@ + index + ".idx"@
}

/// The metadata beside an index file.
pub open spec fn meta_file(index_file: Seq<char>) -> Seq<char> {
    index_file + ".meta"@
}

/// `name` is that of an index file, or of its metadata, of `table`.
pub open spec fn is_index_file(name: Seq<char>, table: Seq<char>) -> bool {
    &&& (table + "."@).is_prefix_of(name)
    &&& ".idx"@.is_suffix_of(name) || ".idx.meta"@.is_suffix_of(name)
}

/// Those of `names` that are index files of `table`, in order.
pub open spec fn index_files(names: Seq<Seq<char>>, table: Seq<char>) -> Seq<Seq<char>>
    decreases names.len(),
{
    if names.len() == 0 {
        Seq::empty()
    } else {
        let before = index_files(names.drop_last(), table);
        if is_index_file(names.last(), table) {
            before.push(names.last())
        } else {
            before
        }
    }
}

/// What is known of the files in a database's directory.
#[derive(Debug, PartialEq)]
pub enum DirListing {
    /// There is no such directory.
    Missing,
    /// The directory could not be listed.
    Unreadable,
    /// The names of the files.
    Names(Vec<String>),
}

/// The names that a listing gives.
pub open spec fn listed(listing: DirListing) -> Seq<Seq<char>> {
    match listing {
        DirListing::Names(names) => text::views(names@),
        _ => Seq::empty(),
    }
}

/// The files that go when indexes of `table` go: those of one index, or all.
pub open spec fn index_removals(
    db: Seq<char>,
    table: Seq<char>,
    index: Option<Seq<char>>,
    listing: DirListing,
) -> Seq<Seq<char>> {
    if listing is Missing {
        Seq::empty()
    } else {
        match index {
            Some(name) => seq![
                named_index_file(db, table, name),
                meta_file(named_index_file(db, table, name)),
            ],
            None => seq![legacy_index_file(db, table), meta_file(legacy_index_file(db, table))]
                + index_files(listed(listing), table).map_values(
                |name: Seq<char>| base_file(db, name),
            ),
        }
    }
}

/// The renames that move the indexes of table `from` to table `to`: old path, new path.
pub open spec fn index_renames(
    db: Seq<char>,
    from: Seq<char>,
    to: Seq<char>,
    listing: DirListing,
) -> Seq<(Seq<char>, Seq<char>)> {
    if listing is Missing {
        Seq::empty()
    } else {
        seq![
            (legacy_index_file(db, from), legacy_index_file(db, to)),
            (meta_file(legacy_index_file(db, from)), meta_file(legacy_index_file(db, to))),
        ] + index_files(listed(listing), from).map_values(
            |name: Seq<char>| (base_file(db, name), renamed_index_file(db, from, to, name)),
        )
    }
}

/// The path of the index file `name` of table `from` once the table is called `to`.
pub open spec fn renamed_index_file(
    db: Seq<char>,
    from: Seq<char>,
    to: Seq<char>,
    name: Seq<char>,
) -> Seq<char> {
    "database/base/"@ + db + "/"@ + to + "."@ + name.skip((from + "."@).len() as int)
}

pub fn heap_path(db: &str, table: &str) -> (r: String)
    ensures
        r@ == heap_file(db@, table@),
{
    text::cat5("database/base/", db, "/", table, ".dat")
}

pub fn fsm_path(heap: &str) -> (r: String)
    ensures
        r@ == fsm_file(heap@),
{
    text::cat2(heap, ".fsm")
}

pub fn base_path(db: &str) -> (r: String)
    ensures
        r@ == base_dir(db@),
{
    text::cat2("database/base/", db)
}

pub fn file_path(db: &str, name: &str) -> (r: String)
    ensures
        r@ == base_file(db@, name@),
{
    text::cat4("database/base/", db, "/", name)
}

pub fn legacy_index_path(db: &str, table: &str) -> (r: String)
    ensures
        r@ == legacy_index_file(db@, table@),
{
    text::cat5("database/base/", db, "/", table, ".idx")
}

pub fn named_index_path(db: &str, table: &str, index: &str) -> (r: String)
    ensures
        r@ == named_index_file(db@, table@, index@),
{
    text::cat7("database/base/", db, "/", table, ".", index, ".idx")
}

pub fn meta_path(index_file: &str) -> (r: String)
    ensures
        r@ == meta_file(index_file@),
{
    text::cat2(index_file, ".meta")
}

/// Whether a file name is that of an index file, or of its metadata, of `table`.
pub fn names_index_of(name: &str, table: &str) -> (r: bool)
    ensures
        r == is_index_file(name@, table@),
{
    let prefix = text::cat2(table, ".");
    text::starts_with(name, prefix.as_str()) && (text::ends_with(name, ".idx") || text::ends_with(
        name,
        ".idx.meta",
    ))
}

/// The index files of `table` among `names`, in order.
fn index_names(names: &Vec<String>, table: &str) -> (r: Vec<String>)
    ensures
        text::views(r@) == index_files(text::views(names@), table@),
{
    let mut r: Vec<String> = Vec::new();
    let mut i: usize = 0;
    assert(text::views(r@) =~= index_files(text::views(names@).take(0), table@));
    while i < names.len()
        invariant
            i <= names.len(),
            text::views(r@) == index_files(text::views(names@).take(i as int), table@),
        decreases names.len() - i,
    {
        let ghost all = text::views(names@);
        let ghost done = r@;
        assert(all.take(i + 1).drop_last() =~= all.take(i as int));
        assert(all.take(i + 1).last() == names@[i as int]@);
        if names_index_of(names[i].as_str(), table) {
            r.push(names[i].clone());
            assert(text::views(r@) =~= text::views(done).push(names@[i as int]@));
        }
        i = i + 1;
    }
    assert(text::views(names@).take(i as int) =~= text::views(names@));
    r
}

/// The files to remove with the indexes of `table`, in order.
///
/// With a name, those of that index: its file and its metadata. Without, those of every index:
/// the unnamed one's, and every listed file of the table that ends in `.idx` or `.idx.meta`.
/// Nothing where the database has no directory.
pub fn remove_index_files_for_table(
    db: &str,
    table: &str,
    index_name: Option<&str>,
    listing: &DirListing,
) -> (r: Vec<String>)
    ensures
        text::views(r@) == index_removals(
            db@,
            table@,
            match index_name {
                Some(name) => Some(name@),
                None => None,
            },
            *listing,
        ),
{
    let mut r: Vec<String> = Vec::new();
    if let DirListing::Missing = listing {
        assert(text::views(r@) =~= Seq::empty());
        return r;
    }
    match index_name {
        Some(name) => {
            let path = named_index_path(db, table, name);
            let meta = meta_path(path.as_str());
            r.push(path);
            r.push(meta);
            assert(text::views(r@) =~= index_removals(db@, table@, Some(name@), *listing));
        },
        None => {
            let path = legacy_index_path(db, table);
            let meta = meta_path(path.as_str());
            r.push(path);
            r.push(meta);
            let ghost head = text::views(r@);
            assert(head =~= seq![
                legacy_index_file(db@, table@),
                meta_file(legacy_index_file(db@, table@)),
            ]);
            let ghost all = index_files(listed(*listing), table@);
            let found = match listing {
                DirListing::Names(names) => index_names(names, table),
                _ => Vec::new(),
            };
            assert(text::views(found@) =~= all);
            let mut i: usize = 0;
            assert(text::views(r@) =~= head + all.take(0).map_values(
                |name: Seq<char>| base_file(db@, name),
            ));
            while i < found.len()
                invariant
                    i <= found.len(),
                    text::views(found@) == all,
                    text::views(r@) == head + all.take(i as int).map_values(
                        |name: Seq<char>| base_file(db@, name),
                    ),
                decreases found.len() - i,
            {
                let ghost done = r@;
                let path = file_path(db, found[i].as_str());
                assert(found@[i as int]@ == all[i as int]);
                r.push(path);
                assert(text::views(r@) =~= text::views(done).push(base_file(db@, all[i as int])));
                assert(all.take(i + 1).map_values(|name: Seq<char>| base_file(db@, name))
                    =~= all.take(i as int).map_values(
                    |name: Seq<char>| base_file(db@, name),
                ).push(base_file(db@, all[i as int])));
                i = i + 1;
            }
            assert(all.take(i as int) =~= all);
        },
    }
    r
}

/// The views of a sequence of renames.
pub open spec fn rename_views(pairs: Seq<(String, String)>) -> Seq<(Seq<char>, Seq<char>)> {
    pairs.map_values(|p: (String, String)| (p.0@, p.1@))
}

/// The renames that give the indexes of table `old_name` to table `new_name`, in order.
pub fn rename_index_files_for_table(
    db: &str,
    old_name: &str,
    new_name: &str,
    listing: &DirListing,
) -> (r: Vec<(String, String)>)
    ensures
        rename_views(r@) == index_renames(db@, old_name@, new_name@, *listing),
{
    let mut r: Vec<(String, String)> = Vec::new();
    if let DirListing::Missing = listing {
        assert(rename_views(r@) =~= Seq::empty());
        return r;
    }
    let from = legacy_index_path(db, old_name);
    let to = legacy_index_path(db, new_name);
    let from_meta = meta_path(from.as_str());
    let to_meta = meta_path(to.as_str());
    r.push((from, to));
    r.push((from_meta, to_meta));
    let ghost head = rename_views(r@);
    assert(head =~= seq![
        (legacy_index_file(db@, old_name@), legacy_index_file(db@, new_name@)),
        (
            meta_file(legacy_index_file(db@, old_name@)),
            meta_file(legacy_index_file(db@, new_name@)),
        ),
    ]);
    let ghost all = index_files(listed(*listing), old_name@);
    let ghost f = |name: Seq<char>|
        (base_file(db@, name), renamed_index_file(db@, old_name@, new_name@, name));
    let found = match listing {
        DirListing::Names(names) => index_names(names, old_name),
        _ => Vec::new(),
    };
    assert(text::views(found@) =~= all);
    let prefix = text::cat2(old_name, ".");
    let mut i: usize = 0;
    assert(rename_views(r@) =~= head + all.take(0).map_values(f));
    proof {
        lemma_index_files(listed(*listing), old_name@);
    }
    while i < found.len()
        invariant
            i <= found.len(),
            text::views(found@) == all,
            prefix@ == old_name@ + "."@,
            forall|j: int| 0 <= j < all.len() ==> prefix@.is_prefix_of(#[trigger] all[j]),
            f == (|name: Seq<char>|
                (base_file(db@, name), renamed_index_file(db@, old_name@, new_name@, name))),
            rename_views(r@) == head + all.take(i as int).map_values(f),
        decreases found.len() - i,
    {
        let ghost done = r@;
        let name = found[i].as_str();
        assert(name@ == all[i as int]);
        let from = file_path(db, name);
        let n: usize = prefix.as_str().unicode_len();
        let to = text::cat6("database/base/", db, "/", new_name, ".", text::tail(name, n));
        r.push((from, to));
        assert(rename_views(r@) =~= rename_views(done).push(f(all[i as int])));
        assert(all.take(i + 1).map_values(f) =~= all.take(i as int).map_values(f).push(
            f(all[i as int]),
        ));
        i = i + 1;
    }
    assert(all.take(i as int) =~= all);
    r
}

/// The index files picked out of a listing are index files.
proof fn lemma_index_files(names: Seq<Seq<char>>, table: Seq<char>)
    ensures
        forall|j: int|
            0 <= j < index_files(names, table).len() ==> is_index_file(
                #[trigger] index_files(names, table)[j],
                table,
            ),
    decreases names.len(),
{
    if names.len() > 0 {
        let before = index_files(names.drop_last(), table);
        lemma_index_files(names.drop_last(), table);
        assert forall|j: int| 0 <= j < index_files(names, table).len() implies is_index_file(
            #[trigger] index_files(names, table)[j],
            table,
        ) by {
            if j < before.len() {
                assert(is_index_file(before[j], table));
            }
        }
    }
}

/// A renamed index file is an index file of the table's new name, where the old name does not
/// itself end in `.idx`.
pub proof fn law_renamed_index_belongs_to_the_new_table(
    db: Seq<char>,
    from: Seq<char>,
    to: Seq<char>,
    name: Seq<char>,
)
    requires
        is_index_file(name, from),
        !".idx"@.is_suffix_of(from),
    ensures
        exists|new_name: Seq<char>| #[trigger]
            is_index_file(new_name, to) && renamed_index_file(db, from, to, name) == base_file(
                db,
                new_name,
            ),
{
    reveal_strlit(".");
    reveal_strlit(".idx");
    reveal_strlit(".idx.meta");
    let k = (from + "."@).len() as int;
    let suffix = name.skip(k);
    let new_name = to + "."@ + suffix;
    assert((from + "."@) =~= name.take(k));
    assert(name =~= (from + "."@) + suffix);
    assert(name[k - 1] == '.');
    assert((to + "."@) =~= new_name.take((to + "."@).len() as int));
    assert forall|tail: Seq<char>| #[trigger]
        tail.is_suffix_of(name) && (tail == ".idx"@ || tail
            == ".idx.meta"@) implies tail.is_suffix_of(new_name) by {
        let n = tail.len();
        assert(tail =~= name.subrange(name.len() - n, name.len() as int));
        assert forall|i: int| 0 <= i < n implies tail[i] == #[trigger] name[name.len() - n + i] by {
            assert(tail[i] == name.subrange(name.len() - n, name.len() as int)[i]);
        }
        // the tail starts with a dot, and holds a dot nowhere that the table's own could be
        if suffix.len() + 1 < n {
            let p = n - suffix.len() - 1;
            assert(tail[p as int] == name[k - 1]);
            assert(name[k - 1] == '.');
            if tail == ".idx.meta"@ {
                assert(p == 4);
                assert(suffix.len() == 4);
                assert(from =~= name.take(k - 1));
                assert(from.len() >= 4);
                let f = from.subrange(from.len() - 4, from.len() as int);
                assert forall|i: int| 0 <= i < 4 implies #[trigger] f[i] == ".idx"@[i] by {
                    let at = name.len() - n + i;
                    assert(tail[i] == name[at]);
                    assert(at == from.len() - 4 + i);
                    assert(f[i] == from[at]);
                    assert(name.take(k - 1)[at] == name[at]);
                    assert(tail[i] == ".idx"@[i]);
                }
                assert(f =~= ".idx"@);
                assert(".idx"@.is_suffix_of(from));
                assert(false);
            }
        }
        assert(new_name.len() >= n);
        assert(tail =~= new_name.subrange(new_name.len() - n, new_name.len() as int));
    }
    assert(is_index_file(new_name, to));
    assert(base_file(db, new_name) =~= renamed_index_file(db, from, to, name));
}

/// Where all indexes of a table go, every listed index file of it goes, and no listed file that
/// is not one.
pub proof fn law_all_index_files_go(
    db: Seq<char>,
    table: Seq<char>,
    names: Vec<String>,
    name: Seq<char>,
)
    requires
        text::views(names@).contains(name),
    ensures
        index_files(text::views(names@), table).contains(name) <==> is_index_file(name, table),
        is_index_file(name, table) ==> index_removals(
            db,
            table,
            None,
            DirListing::Names(names),
        ).contains(base_file(db, name)),
{
    let all = text::views(names@);
    lemma_index_files(all, table);
    if is_index_file(name, table) {
        lemma_index_files_complete(all, table, name);
    }
    let picked = index_files(all, table);
    if picked.contains(name) {
        let j = choose|j: int| 0 <= j < picked.len() && picked[j] == name;
        assert(is_index_file(picked[j], table));
        let listing = DirListing::Names(names);
        let removals = index_removals(db, table, None, listing);
        assert(listed(listing) == all);
        assert(removals[2 + j] == base_file(db, picked[j]));
    }
}

proof fn lemma_index_files_complete(names: Seq<Seq<char>>, table: Seq<char>, name: Seq<char>)
    requires
        names.contains(name),
        is_index_file(name, table),
    ensures
        index_files(names, table).contains(name),
    decreases names.len(),
{
    let i = choose|i: int| 0 <= i < names.len() && names[i] == name;
    let before = index_files(names.drop_last(), table);
    if i == names.len() - 1 {
        assert(index_files(names, table)[before.len() as int] == name);
    } else {
        assert(names.drop_last()[i] == name);
        lemma_index_files_complete(names.drop_last(), table, name);
        let j = choose|j: int| 0 <= j < before.len() && before[j] == name;
        assert(index_files(names, table)[j] == name);
    }
}

/// A table's files stand in the directory of its database, under the table's name, and no two
/// tables, indexes or databases share one.
pub proof fn law_files_are_told_apart(db: Seq<char>, a: Seq<char>, b: Seq<char>, index: Seq<char>)
    ensures
        heap_file(db, a) == base_dir(db) + "/"@ + a + ".dat"@,
        fsm_file(heap_file(db, a)) == base_dir(db) + "/"@ + a + ".dat.fsm"@,
        legacy_index_file(db, a) == base_dir(db) + "/"@ + a + ".idx"@,
        named_index_file(db, a, index) == base_dir(db) + "/"@ + a + "."@ + index + ".idx"@,
        base_file(db, a) == base_dir(db) + "/"@ + a,
        base_dir(db) == "database/base/"@ + db,
        heap_file(db, a) == heap_file(db, b) ==> a == b,
        legacy_index_file(db, a) == legacy_index_file(db, b) ==> a == b,
        named_index_file(db, index, a) == named_index_file(db, index, b) ==> a == b,
        base_dir(a) == base_dir(b) ==> a == b,
        meta_file(a) == meta_file(b) ==> a == b,
        meta_file(a) == a + ".meta"@,
{
    reveal_strlit(".dat");
    reveal_strlit(".fsm");
    reveal_strlit(".dat.fsm");
    assert(fsm_file(heap_file(db, a)) =~= base_dir(db) + "/"@ + a + ".dat.fsm"@);
    let lead = "database/base/"@ + db + "/"@;
    if heap_file(db, a) == heap_file(db, b) {
        lemma_same_middle(lead, a, b, ".dat"@);
    }
    if legacy_index_file(db, a) == legacy_index_file(db, b) {
        lemma_same_middle(lead, a, b, ".idx"@);
    }
    if named_index_file(db, index, a) == named_index_file(db, index, b) {
        lemma_same_middle(lead + index + "."@, a, b, ".idx"@);
    }
    if base_dir(a) == base_dir(b) {
        assert("database/base/"@ + a + ""@ =~= "database/base/"@ + a) by {
            reveal_strlit("");
        }
        assert("database/base/"@ + b + ""@ =~= "database/base/"@ + b) by {
            reveal_strlit("");
        }
        lemma_same_middle("database/base/"@, a, b, ""@);
    }
    if meta_file(a) == meta_file(b) {
        let none = Seq::<char>::empty();
        assert(none + a + ".meta"@ =~= meta_file(a));
        assert(none + b + ".meta"@ =~= meta_file(b));
        lemma_same_middle(none, a, b, ".meta"@);
    }
}

proof fn lemma_same_middle(lead: Seq<char>, a: Seq<char>, b: Seq<char>, tail: Seq<char>)
    requires
        lead + a + tail == lead + b + tail,
    ensures
        a == b,
{
    let x = lead + a + tail;
    let y = lead + b + tail;
    assert(x.len() == lead.len() + a.len() + tail.len());
    assert(y.len() == lead.len() + b.len() + tail.len());
    assert forall|i: int| 0 <= i < a.len() implies a[i] == b[i] by {
        assert(x[lead.len() + i] == a[i]);
        assert(y[lead.len() + i] == b[i]);
    }
    assert(a =~= b);
}

/// The index files of a table are `{table}.{index}.idx` and the metadata beside it, of every index;
/// its heap and free-space files are none of them, and neither is any file that does not start with
/// the table's name and a dot.
pub proof fn law_index_files_are_known_by_name(
    table: Seq<char>,
    index: Seq<char>,
    other: Seq<char>,
)
    ensures
        is_index_file(table + "."@ + index + ".idx"@, table),
        is_index_file(table + "."@ + index + ".idx.meta"@, table),
        is_index_file(table + ".idx.meta"@, table),
        !is_index_file(table + ".dat"@, table),
        !is_index_file(table + ".dat.fsm"@, table),
        !(table + "."@).is_prefix_of(other) ==> !is_index_file(other, table),
{
    reveal_strlit(".");
    reveal_strlit(".idx");
    reveal_strlit(".idx.meta");
    reveal_strlit(".dat");
    reveal_strlit(".dat.fsm");
    let lead = table + "."@;
    let n = lead.len() as int;
    let a = table + "."@ + index + ".idx"@;
    assert(lead =~= a.subrange(0, n));
    assert(".idx"@ =~= a.subrange(a.len() - 4, a.len() as int));
    let b = table + "."@ + index + ".idx.meta"@;
    assert(lead =~= b.subrange(0, n));
    assert(".idx.meta"@ =~= b.subrange(b.len() - 9, b.len() as int));
    let c = table + ".idx.meta"@;
    assert(lead =~= c.subrange(0, n));
    assert(".idx.meta"@ =~= c.subrange(c.len() - 9, c.len() as int));
    let d = table + ".dat"@;
    assert(d.last() == 't');
    if ".idx"@.is_suffix_of(d) {
        assert(".idx"@.last() == d.last());
    }
    if ".idx.meta"@.is_suffix_of(d) {
        assert(".idx.meta"@.last() == d.last());
    }
    let e = table + ".dat.fsm"@;
    assert(e.last() == 'm');
    if ".idx"@.is_suffix_of(e) {
        assert(".idx"@.last() == e.last());
    }
    if ".idx.meta"@.is_suffix_of(e) {
        assert(".idx.meta"@.last() == e.last());
    }
}

/// Every listed file is looked at, and the index files keep their order: those of a listing are
/// those of its front and those of the rest.
pub proof fn law_index_files_keep_their_order(
    front: Seq<Seq<char>>,
    name: Seq<char>,
    table: Seq<char>,
)
    ensures
        index_files(front.push(name), table) == index_files(front, table) + (if is_index_file(
            name,
            table,
        ) {
            seq![name]
        } else {
            Seq::empty()
        }),
        index_files(Seq::empty(), table).len() == 0,
{
    assert(front.push(name).drop_last() =~= front);
    assert(index_files(front, table) + Seq::<Seq<char>>::empty() =~= index_files(front, table));
    assert(index_files(front, table) + seq![name] =~= index_files(front, table).push(name));
}

/// Where a table is renamed, every one of its indexes follows it: the unnamed one, each listed one
/// under its own name, and the metadata of each; and nothing else is renamed.
pub proof fn law_every_index_follows_the_table(
    db: Seq<char>,
    from: Seq<char>,
    to: Seq<char>,
    names: Vec<String>,
    rest: Seq<char>,
)
    ensures
        ({
            let moves = index_renames(db, from, to, DirListing::Names(names));
            let name = from + "."@ + rest;
            &&& moves.len() == 2 + index_files(text::views(names@), from).len()
            &&& moves[0] == (
                base_dir(db) + "/"@ + from + ".idx"@,
                base_dir(db) + "/"@ + to + ".idx"@,
            )
            &&& moves[1] == (
                base_dir(db) + "/"@ + from + ".idx.meta"@,
                base_dir(db) + "/"@ + to + ".idx.meta"@,
            )
            &&& text::views(names@).contains(name) && is_index_file(name, from) ==> moves.contains(
                (
                    base_dir(db) + "/"@ + from + "."@ + rest,
                    base_dir(db) + "/"@ + to + "."@ + rest,
                ),
            )
        }),
        index_renames(db, from, to, DirListing::Missing).len() == 0,
        index_renames(db, from, to, DirListing::Unreadable).len() == 2,
{
    reveal_strlit(".idx");
    reveal_strlit(".meta");
    reveal_strlit(".idx.meta");
    let listing = DirListing::Names(names);
    let moves = index_renames(db, from, to, listing);
    let all = text::views(names@);
    let picked = index_files(all, from);
    let name = from + "."@ + rest;
    assert(moves[1].0 =~= base_dir(db) + "/"@ + from + ".idx.meta"@);
    assert(moves[1].1 =~= base_dir(db) + "/"@ + to + ".idx.meta"@);
    if all.contains(name) && is_index_file(name, from) {
        lemma_index_files_complete(all, from, name);
        let j = choose|j: int| 0 <= j < picked.len() && picked[j] == name;
        assert(moves[2 + j] == (base_file(db, name), renamed_index_file(db, from, to, name)));
        assert(name.skip((from + "."@).len() as int) =~= rest);
        assert(base_file(db, name) =~= base_dir(db) + "/"@ + from + "."@ + rest);
        assert(renamed_index_file(db, from, to, name) =~= base_dir(db) + "/"@ + to + "."@ + rest);
    }
}

/// Where one index goes, its file and its metadata go and nothing else; where all go, the unnamed
/// one's file and metadata go too, besides the listed ones.
pub proof fn law_no_other_file_goes(
    db: Seq<char>,
    table: Seq<char>,
    index: Seq<char>,
    names: Vec<String>,
)
    ensures
        index_removals(db, table, Some(index), DirListing::Names(names)) == seq![
            base_dir(db) + "/"@ + table + "."@ + index + ".idx"@,
            base_dir(db) + "/"@ + table + "."@ + index + ".idx.meta"@,
        ],
        ({
            let all = index_removals(db, table, None, DirListing::Names(names));
            &&& all.len() == 2 + index_files(text::views(names@), table).len()
            &&& all[0] == base_dir(db) + "/"@ + table + ".idx"@
            &&& all[1] == base_dir(db) + "/"@ + table + ".idx.meta"@
        }),
        index_removals(db, table, Some(index), DirListing::Missing).len() == 0,
        index_removals(db, table, None, DirListing::Missing).len() == 0,
        index_removals(db, table, Some(index), DirListing::Unreadable) == index_removals(
            db,
            table,
            Some(index),
            DirListing::Names(names),
        ),
        index_removals(db, table, None, DirListing::Unreadable).len() == 2,
{
    reveal_strlit(".idx");
    reveal_strlit(".meta");
    reveal_strlit(".idx.meta");
    let listing = DirListing::Names(names);
    let one = index_removals(db, table, Some(index), listing);
    assert(one[1] =~= base_dir(db) + "/"@ + table + "."@ + index + ".idx.meta"@);
    assert(one =~= seq![
        base_dir(db) + "/"@ + table + "."@ + index + ".idx"@,
        base_dir(db) + "/"@ + table + "."@ + index + ".idx.meta"@,
    ]);
    let all = index_removals(db, table, None, listing);
    assert(all[1] =~= base_dir(db) + "/"@ + table + ".idx.meta"@);
}

} // verus!
