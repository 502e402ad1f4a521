//! The entry of this program among those that the shell keeps for tray icons.

use vstd::prelude::*;
use vstd::string::*;

use crate::protocol::text_view;

verus! {

/// Where the shell keeps its entries.
pub const NOTIFY_ICON_SETTINGS: &'static str = "Control Panel\\NotifyIconSettings";

/// How often to look for the entry, which the shell makes only after the icon is there.
pub const PROMOTE_ATTEMPTS: u32 = 10;

/// How long to wait between two looks.
pub const PROMOTE_PAUSE_MS: u64 = 300;

/// A text in small letters, by the mapping of Unicode.
pub uninterp spec fn lowercase(text: Seq<char>) -> Seq<char>;

/// `str::to_lowercase`: the text in small letters.
pub assume_specification[ str::to_lowercase ](text: &str) -> (r: String)
    ensures
        r@ == lowercase(text@),
;

/// `wanted` is at `i` and nowhere before.
pub open spec fn is_first(texts: Seq<Option<Seq<char>>>, wanted: Seq<char>, i: int) -> bool {
    &&& 0 <= i < texts.len()
    &&& texts[i] == Some(wanted)
    &&& forall|j: int| 0 <= j < i ==> #[trigger] texts[j] != Some(wanted)
}

/// The views of optional texts.
pub open spec fn views(texts: Seq<Option<String>>) -> Seq<Option<Seq<char>>> {
    texts.map_values(|t: Option<String>| text_view(t))
}

/// A known text in small letters.
pub open spec fn lowered(text: Option<Seq<char>>) -> Option<Seq<char>> {
    match text {
        Some(s) => Some(lowercase(s)),
        None => None,
    }
}

/// Known texts in small letters.
pub open spec fn all_lowered(texts: Seq<Option<Seq<char>>>) -> Seq<Option<Seq<char>>> {
    texts.map_values(|t: Option<Seq<char>>| lowered(t))
}

/// Where `wanted` first is among `texts`.
pub fn first_match(wanted: &String, texts: &Vec<Option<String>>) -> (r: Option<usize>)
    ensures
        match r {
            Some(i) => is_first(views(texts@), wanted@, i as int),
            None => !views(texts@).contains(Some(wanted@)),
        },
{
    let mut i: usize = 0;
    while i < texts.len()
        invariant
            i <= texts@.len(),
            forall|j: int| 0 <= j < i ==> #[trigger] views(texts@)[j] != Some(wanted@),
        decreases texts@.len() - i,
    {
        assert(views(texts@)[i as int] == text_view(texts@[i as int]));
        match &texts[i] {
            Some(text) => {
                if *text == *wanted {
                    return Some(i);
                }
            },
            None => {},
        }
        i = i + 1;
    }
    None
}

/// Which of the entries is the one of the program `exe`: the first whose path is that of the
/// program, capital and small letters aside. `None` stands for an entry whose path is not known.
pub fn own_entry(exe: &str, paths: &Vec<Option<String>>) -> (r: Option<usize>)
    ensures
        match r {
            Some(i) => is_first(all_lowered(views(paths@)), lowercase(exe@), i as int),
            None => !all_lowered(views(paths@)).contains(Some(lowercase(exe@))),
        },
{
    let mut small: Vec<Option<String>> = Vec::new();
    let ghost all = all_lowered(views(paths@));
    let mut i: usize = 0;
    while i < paths.len()
        invariant
            i <= paths@.len(),
            all == all_lowered(views(paths@)),
            views(small@) == all.take(i as int),
        decreases paths@.len() - i,
    {
        let ghost before = small@;
        match &paths[i] {
            Some(path) => {
                small.push(Some(path.as_str().to_lowercase()));
            },
            None => {
                small.push(None);
            },
        }
        assert(views(paths@)[i as int] == text_view(paths@[i as int]));
        assert(text_view(small@.last()) == all[i as int]);
        assert(views(small@) == views(before).push(all[i as int]));
        assert(views(small@) == all.take(i + 1));
        i = i + 1;
    }
    assert(all.take(i as int) == all);
    first_match(&exe.to_lowercase(), &small)
}

} // verus!
