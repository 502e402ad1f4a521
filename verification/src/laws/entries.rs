//! Which entry of the shell is taken for the program's own.

use vstd::prelude::*;

use crate::promote::{
    all_lowered, is_first, lowercase, views, NOTIFY_ICON_SETTINGS, PROMOTE_ATTEMPTS,
    PROMOTE_PAUSE_MS,
};

verus! {

/// An entry is the program's own exactly where its path is that of the program, but for the case
/// of letters, and no entry before it has such a path.
pub proof fn the_own_entry_is_the_first_of_its_path(
    paths: Seq<Option<String>>,
    exe: Seq<char>,
    i: int,
)
    ensures
        is_first(all_lowered(views(paths)), lowercase(exe), i) <==> {
            &&& 0 <= i < paths.len()
            &&& paths[i] matches Some(path) && lowercase(path@) == lowercase(exe)
            &&& forall|j: int|
                0 <= j < i ==> !((#[trigger] paths[j]) matches Some(path) && lowercase(path@)
                    == lowercase(exe))
        },
{
    let all = all_lowered(views(paths));
    assert forall|j: int| 0 <= j < paths.len() implies ((#[trigger] all[j] == Some(
        lowercase(exe),
    )) <==> (paths[j] matches Some(path) && lowercase(path@) == lowercase(exe))) by {
        assert(views(paths)[j] == crate::protocol::text_view(paths[j]));
    }
    if is_first(all, lowercase(exe), i) {
        assert forall|j: int| 0 <= j < i implies !((#[trigger] paths[j]) matches Some(path)
            && lowercase(path@) == lowercase(exe)) by {
            assert(all[j] != Some(lowercase(exe)));
        }
    }
}

/// No entry is the program's own exactly where none has the path of the program.
pub proof fn without_the_path_there_is_no_own_entry(paths: Seq<Option<String>>, exe: Seq<char>)
    ensures
        all_lowered(views(paths)).contains(Some(lowercase(exe))) <==> exists|j: int|
            0 <= j < paths.len() && ((#[trigger] paths[j]) matches Some(path) && lowercase(path@)
                == lowercase(exe)),
{
    let all = all_lowered(views(paths));
    assert forall|j: int| 0 <= j < paths.len() implies ((#[trigger] all[j] == Some(
        lowercase(exe),
    )) <==> (paths[j] matches Some(path) && lowercase(path@) == lowercase(exe))) by {
        assert(views(paths)[j] == crate::protocol::text_view(paths[j]));
    }
    if exists|j: int|
        0 <= j < paths.len() && ((#[trigger] paths[j]) matches Some(path) && lowercase(path@)
            == lowercase(exe)) {
        let j = choose|j: int|
            0 <= j < paths.len() && ((#[trigger] paths[j]) matches Some(path) && lowercase(path@)
                == lowercase(exe));
        assert(all[j] == Some(lowercase(exe)));
    }
}

/// Where the entries are, and how long to look for the own one: three seconds in all.
pub proof fn the_shell_has_three_seconds()
    ensures
        NOTIFY_ICON_SETTINGS@ == "Control Panel\\NotifyIconSettings"@,
        PROMOTE_ATTEMPTS == 10,
        PROMOTE_ATTEMPTS * PROMOTE_PAUSE_MS == 3000,
{
}

/// The first text that is the one looked for.
pub proof fn the_first_match_is_the_first(
    texts: Seq<Option<String>>,
    wanted: Seq<char>,
    i: int,
)
    ensures
        is_first(views(texts), wanted, i) <==> {
            &&& 0 <= i < texts.len()
            &&& texts[i] matches Some(text) && text@ == wanted
            &&& forall|j: int|
                0 <= j < i ==> !((#[trigger] texts[j]) matches Some(text) && text@ == wanted)
        },
{
    let all = views(texts);
    assert forall|j: int| 0 <= j < texts.len() implies ((#[trigger] all[j] == Some(wanted)) <==> (
    texts[j] matches Some(text) && text@ == wanted)) by {}
    if is_first(all, wanted, i) {
        assert forall|j: int| 0 <= j < i implies !((#[trigger] texts[j]) matches Some(text) && text@
            == wanted) by {
            assert(all[j] != Some(wanted));
        }
    }
}

} // verus!
