//! The attached files of a message, from its full bytes.

use crate::mime::{first_value, get_first_value, parsed_parts, part_views, read_parts, Part};
use crate::text::{
    remove_char, remove_text, same_text, split_trimmed, trimmed_pieces, views_of, without_char,
    without_text,
};
use vstd::prelude::*;

verus! {

/// The item that a download fetches: the full bytes of the message.
pub const DOWNLOAD_QUERY: &'static str = "BODY[]";

/// One attached file: its name and its bytes.
#[derive(Debug)]
pub struct File {
    pub name: String,
    pub data: Vec<u8>,
}

impl View for File {
    type V = (Seq<char>, Seq<u8>);

    open spec fn view(&self) -> (Seq<char>, Seq<u8>) {
        (self.name@, self.data@)
    }
}

/// What each of `files` holds.
pub open spec fn file_views(files: Seq<File>) -> Seq<(Seq<char>, Seq<u8>)> {
    files.map_values(|f: File| f@)
}

/// The file name that the value `disposition` of a `Content-Disposition`
/// field gives: its second piece between semicolons, trimmed, without
/// quotation marks and without `filename=`. `None` where it has one piece
/// only.
pub open spec fn file_name_in(disposition: Seq<char>) -> Option<Seq<char>> {
    let pieces = trimmed_pieces(disposition, ';');
    if pieces.len() >= 2 {
        Some(without_text(without_char(pieces[1], '"'), "filename="@))
    } else {
        None
    }
}

/// The files that `parts` attach, by name: each part with a
/// `Content-Disposition` field gives one, and of two with one name the later
/// stays. `None` where such a field names no file or the body of such a part
/// cannot be decoded.
pub open spec fn attached(parts: Seq<(Seq<(Seq<char>, Seq<char>)>, Option<Seq<u8>>)>) -> Option<
    Map<Seq<char>, Seq<u8>>,
>
    decreases parts.len(),
{
    if parts.len() == 0 {
        Some(Map::empty())
    } else {
        match attached(parts.drop_last()) {
            None => None,
            Some(files) => match first_value(parts.last().0, "Content-Disposition"@) {
                None => Some(files),
                Some(disposition) => match (file_name_in(disposition), parts.last().1) {
                    (Some(name), Some(data)) => Some(files.insert(name, data)),
                    _ => None,
                },
            },
        }
    }
}

/// `files` lists what `map` holds, each name once.
pub open spec fn lists(files: Seq<(Seq<char>, Seq<u8>)>, map: Map<Seq<char>, Seq<u8>>) -> bool {
    &&& forall|i: int|
        0 <= i < files.len() ==> map.contains_key(#[trigger] files[i].0) && map[files[i].0]
            == files[i].1
    &&& forall|name: Seq<char>|
        map.contains_key(name) ==> exists|i: int|
            0 <= i < files.len() && #[trigger] files[i].0 == name
    &&& forall|i: int, j: int|
        0 <= i < j < files.len() ==> #[trigger] files[i].0 != #[trigger] files[j].0
}

/// The files attached to the message `raw`; `None` where `raw` cannot be
/// read as MIME or a file cannot be had from one of its parts.
pub open spec fn downloaded(raw: Seq<u8>) -> Option<Map<Seq<char>, Seq<u8>>> {
    match parsed_parts(raw) {
        Some(parts) => attached(parts),
        None => None,
    }
}

/// Once the parts up to `n` give no files, all the parts give none.
pub proof fn lemma_none_stays(
    parts: Seq<(Seq<(Seq<char>, Seq<char>)>, Option<Seq<u8>>)>,
    n: int,
)
    requires
        0 <= n <= parts.len(),
        attached(parts.take(n)) is None,
    ensures
        attached(parts) is None,
    decreases parts.len(),
{
    if n == parts.len() {
        assert(parts.take(n) =~= parts);
    } else {
        assert(parts.drop_last().take(n) =~= parts.take(n));
        lemma_none_stays(parts.drop_last(), n);
    }
}

/// The file name that a `Content-Disposition` value gives.
pub fn file_name(disposition: &str) -> (r: Option<String>)
    ensures
        r is Some <==> file_name_in(disposition@) is Some,
        r matches Some(name) ==> name@ == file_name_in(disposition@)->0,
{
    let pieces = split_trimmed(disposition, ';');
    if pieces.len() < 2 {
        return None;
    }
    assert(views_of(pieces@)[1] == pieces@[1]@);
    let unquoted = remove_char(pieces[1].as_str(), '"');
    Some(remove_text(unquoted.as_str(), "filename="))
}

/// Writing over the file at `at`, under its own name, lists the map with
/// that name set anew.
pub proof fn lemma_lists_update(
    before: Seq<(Seq<char>, Seq<u8>)>,
    at: int,
    data: Seq<u8>,
    map: Map<Seq<char>, Seq<u8>>,
)
    requires
        0 <= at < before.len(),
        lists(before, map),
    ensures
        lists(before.update(at, (before[at].0, data)), map.insert(before[at].0, data)),
{
    let name = before[at].0;
    let after = before.update(at, (name, data));
    let next = map.insert(name, data);
    assert forall|n: Seq<char>| next.contains_key(n) implies exists|i: int|
        0 <= i < after.len() && #[trigger] after[i].0 == n by {
        if n == name {
            assert(after[at].0 == n);
        } else {
            let i = choose|i: int| 0 <= i < before.len() && #[trigger] before[i].0 == n;
            assert(after[i].0 == n);
        }
    }
    assert forall|i: int, j: int| 0 <= i < j < after.len() implies #[trigger] after[i].0
        != #[trigger] after[j].0 by {
        assert(after[i].0 == before[i].0 && after[j].0 == before[j].0);
    }
    assert forall|i: int| 0 <= i < after.len() implies next.contains_key(#[trigger] after[i].0)
        && next[after[i].0] == after[i].1 by {
        if i != at {
            assert(after[i] == before[i]);
            if i < at {
                assert(before[i].0 != before[at].0);
            } else {
                assert(before[at].0 != before[i].0);
            }
        }
    }
}

/// Adding a file under a name that is not listed lists the map with that
/// name set.
pub proof fn lemma_lists_push(
    before: Seq<(Seq<char>, Seq<u8>)>,
    name: Seq<char>,
    data: Seq<u8>,
    map: Map<Seq<char>, Seq<u8>>,
)
    requires
        forall|i: int| 0 <= i < before.len() ==> (#[trigger] before[i]).0 != name,
        lists(before, map),
    ensures
        lists(before.push((name, data)), map.insert(name, data)),
{
    let after = before.push((name, data));
    let next = map.insert(name, data);
    assert forall|n: Seq<char>| next.contains_key(n) implies exists|i: int|
        0 <= i < after.len() && #[trigger] after[i].0 == n by {
        if n == name {
            assert(after[after.len() - 1].0 == n);
        } else {
            let i = choose|i: int| 0 <= i < before.len() && #[trigger] before[i].0 == n;
            assert(after[i].0 == n);
        }
    }
    assert forall|i: int, j: int| 0 <= i < j < after.len() implies #[trigger] after[i].0
        != #[trigger] after[j].0 by {
        assert(after[i] == before[i]);
        if j < before.len() {
            assert(after[j] == before[j]);
        }
    }
    assert forall|i: int| 0 <= i < after.len() implies next.contains_key(#[trigger] after[i].0)
        && next[after[i].0] == after[i].1 by {
        if i < before.len() {
            assert(after[i] == before[i]);
        }
    }
}

/// Puts `data` under `name` into `files`, in place of what stood under that
/// name.
pub fn store(files: &mut Vec<File>, name: String, data: Vec<u8>)
    ensures
        forall|map: Map<Seq<char>, Seq<u8>>|
            lists(file_views(old(files)@), map) ==> lists(
                file_views(final(files)@),
                map.insert(name@, data@),
            ),
{
    let ghost before = file_views(files@);
    let mut at: usize = 0;
    while at < files.len()
        invariant
            at <= files.len(),
            before == file_views(files@),
            before == file_views(old(files)@),
            forall|i: int| 0 <= i < at ==> (#[trigger] before[i]).0 != name@,
        decreases files.len() - at,
    {
        assert(before[at as int] == files@[at as int]@);
        if same_text(files[at].name.as_str(), name.as_str()) {
            files.set(at, File { name, data });
            proof {
                let after = file_views(files@);
                assert(after =~= before.update(at as int, (before[at as int].0, data@)));
                assert forall|map: Map<Seq<char>, Seq<u8>>| lists(before, map) implies lists(
                    after,
                    map.insert(name@, data@),
                ) by {
                    lemma_lists_update(before, at as int, data@, map);
                }
            }
            return ;
        }
        at += 1;
    }
    files.push(File { name, data });
    proof {
        let after = file_views(files@);
        assert(after =~= before.push((name@, data@)));
        assert forall|map: Map<Seq<char>, Seq<u8>>| lists(before, map) implies lists(
            after,
            map.insert(name@, data@),
        ) by {
            lemma_lists_push(before, name@, data@, map);
        }
    }
}

/// Collects the files that `parts` attach.
pub fn collect_files(parts: Vec<Part>) -> (r: Option<Vec<File>>)
    ensures
        r is Some <==> attached(part_views(parts@)) is Some,
        r matches Some(files) ==> lists(file_views(files@), attached(part_views(parts@))->0),
{
    let ghost all = part_views(parts@);
    let mut rest = parts;
    let mut files: Vec<File> = Vec::new();
    let ghost mut done: int = 0;
    proof {
        assert(all.take(0) =~= Seq::empty());
        assert(file_views(files@) =~= Seq::empty());
        assert(all.skip(0) =~= all);
    }
    while rest.len() > 0
        invariant
            all == part_views(parts@),
            0 <= done <= all.len(),
            rest.len() == all.len() - done,
            part_views(rest@) == all.skip(done),
            attached(all.take(done)) is Some,
            lists(file_views(files@), attached(all.take(done))->0),
        decreases rest.len(),
    {
        let ghost prev = rest@;
        let part = rest.remove(0);
        proof {
            assert(part@ == part_views(prev)[0]);
            assert(part@ == all[done]);
            assert forall|i: int| 0 <= i < rest@.len() implies #[trigger] part_views(rest@)[i]
                == all.skip(done + 1)[i] by {
                assert(rest@[i] == prev[i + 1]);
                assert(part_views(prev)[i + 1] == all.skip(done)[i + 1]);
            }
            assert(part_views(rest@) =~= all.skip(done + 1));
            assert(all.take(done + 1).drop_last() =~= all.take(done));
        }
        let name = match get_first_value(&part.headers, "Content-Disposition") {
            None => None,
            Some(disposition) => match file_name(disposition.as_str()) {
                None => {
                    proof {
                        lemma_none_stays(all, done + 1);
                    }
                    return None;
                },
                Some(name) => Some(name),
            },
        };
        match name {
            None => {},
            Some(name) => match part.body {
                None => {
                    proof {
                        lemma_none_stays(all, done + 1);
                    }
                    return None;
                },
                Some(data) => {
                    store(&mut files, name, data);
                },
            },
        }
        proof {
            done = done + 1;
        }
    }
    assert(all.take(done) =~= all);
    Some(files)
}

/// The files attached to the message `raw`.
pub fn download(raw: &[u8]) -> (r: Option<Vec<File>>)
    ensures
        r is Some <==> downloaded(raw@) is Some,
        r matches Some(files) ==> lists(file_views(files@), downloaded(raw@)->0),
{
    match read_parts(raw) {
        Ok(parts) => collect_files(parts),
        Err(_) => None,
    }
}

} // verus!
