//! The template locator: where the file of a template is looked for, and
//! which of the places is taken.

use crate::config::Config;
use crate::error::{CompileError, CompileErrorView, ErrorKind};
use crate::paths::{
    debug_path, join_path, path_beside, path_joined, path_quoted, path_with_file_name,
};
use crate::text::{bracketed_list, debug_quoted, debug_str, list_text};
use vstd::prelude::*;
use vstd::string::*;

verus! {

/// The anchor as text, if there is one.
pub open spec fn anchor_text(start_at: Option<&str>) -> Option<Seq<char>> {
    match start_at {
        Some(anchor) => Some(anchor@),
        None => None,
    }
}

/// The places where a template is looked for, in the order of the search:
/// beside the anchor, if there is one, and then in each directory.
pub open spec fn search_path(
    dirs: Seq<Seq<char>>,
    path: Seq<char>,
    start_at: Option<Seq<char>>,
) -> Seq<Seq<char>> {
    let rooted = Seq::new(dirs.len(), |i: int| path_joined(dirs[i], path));
    match start_at {
        Some(anchor) => seq![path_beside(anchor, path)] + rooted,
        None => rooted,
    }
}

/// Whether `probe`, asked about `place`, may answer `answer`.
pub open spec fn probe_says<F: Fn(&String) -> bool>(
    probe: F,
    place: Seq<char>,
    answer: bool,
) -> bool {
    exists|asked: &String| asked@ == place && #[trigger] probe.ensures((asked,), answer)
}

/// The message for a template that is in none of the places searched,
/// given the path, the place beside the anchor if one was tried, and the
/// list of directories, each as it is to be shown.
pub open spec fn not_found_text(
    shown_path: Seq<char>,
    shown_relative: Option<Seq<char>>,
    shown_dirs: Seq<char>,
) -> Seq<char> {
    match shown_relative {
        Some(relative) => "template "@ + shown_path + " not found at "@ + relative
            + " or in directories "@ + shown_dirs,
        None => "template "@ + shown_path + " not found in directories "@ + shown_dirs,
    }
}

/// The error for a template that is in none of the places searched. Its
/// message lists them all.
pub open spec fn not_found_fault(
    dirs: Seq<Seq<char>>,
    path: Seq<char>,
    start_at: Option<Seq<char>>,
    file: Option<Seq<char>>,
) -> CompileErrorView {
    CompileErrorView {
        kind: ErrorKind::NotFound,
        msg: not_found_text(
            debug_quoted(path),
            match start_at {
                Some(anchor) => Some(path_quoted(path_beside(anchor, path))),
                None => None,
            },
            bracketed_list(Seq::new(dirs.len(), |i: int| path_quoted(dirs[i]))),
        ),
        file,
        span: None,
    }
}

/// The places of a search are those of `search_path`: with an anchor, the
/// place beside it comes first; the directories follow in their order.
pub proof fn lemma_search_order(dirs: Seq<Seq<char>>, path: Seq<char>, start_at: Option<Seq<char>>)
    ensures
        ({
            let places = search_path(dirs, path, start_at);
            let offset: int = if start_at is Some { 1 } else { 0 };
            &&& places.len() == offset + dirs.len()
            &&& start_at matches Some(anchor) ==> places[0] == path_beside(anchor, path)
            &&& forall|i: int|
                0 <= i < dirs.len() ==> #[trigger] places[offset + i] == path_joined(dirs[i], path)
        }),
{
}

/// Writes the message for a template that is in none of the places
/// searched, given the path, the place beside the anchor if one was tried,
/// and the list of directories, each as it is to be shown.
pub fn not_found_message(shown_path: &str, shown_relative: Option<&str>, shown_dirs: &str) -> (msg:
    String)
    ensures
        msg@ == not_found_text(shown_path@, anchor_text(shown_relative), shown_dirs@),
{
    let mut msg = String::from_str("template ");
    msg.append(shown_path);
    match shown_relative {
        Some(relative) => {
            msg.append(" not found at ");
            msg.append(relative);
            msg.append(" or in directories ");
        },
        None => {
            msg.append(" not found in directories ");
        },
    }
    msg.append(shown_dirs);
    msg
}

/// The first of the places of which `probe` says that it exists. The
/// places are asked about in their order, and none after the one that is
/// found.
pub fn first_found<F>(places: &Vec<String>, probe: &F) -> (found: Option<usize>)
    where F: Fn(&String) -> bool
    requires
        forall|at: int| 0 <= at < places@.len() ==> probe.requires((#[trigger] &places@[at],)),
    ensures
        match found {
            Some(at) => {
                &&& at < places@.len()
                &&& probe.ensures((&places@[at as int],), true)
                &&& forall|before: int|
                    0 <= before < at ==> probe.ensures((#[trigger] &places@[before],), false)
            },
            None => forall|at: int|
                0 <= at < places@.len() ==> probe.ensures((#[trigger] &places@[at],), false),
        },
{
    let mut at: usize = 0;
    while at < places.len()
        invariant
            at <= places.len(),
            forall|at: int| 0 <= at < places@.len() ==> probe.requires((#[trigger] &places@[at],)),
            forall|before: int|
                0 <= before < at ==> probe.ensures((#[trigger] &places@[before],), false),
        decreases places.len() - at,
    {
        if probe(&places[at]) {
            return Some(at);
        }
        at = at + 1;
    }
    None
}

/// Each directory as it is shown in a message.
fn shown_dirs(dirs: &Vec<String>) -> (shown: Vec<String>)
    ensures
        shown.deep_view() == Seq::new(dirs@.len(), |i: int| path_quoted(dirs.deep_view()[i])),
{
    let mut shown: Vec<String> = Vec::new();
    let mut i: usize = 0;
    while i < dirs.len()
        invariant
            i <= dirs.len(),
            shown@.len() == i,
            forall|j: int| 0 <= j < i ==> (#[trigger] shown@[j])@ == path_quoted(dirs@[j]@),
        decreases dirs.len() - i,
    {
        shown.push(debug_path(dirs[i].as_str()));
        i = i + 1;
    }
    assert(shown.deep_view() =~= Seq::new(
        dirs@.len(),
        |i: int| path_quoted(dirs.deep_view()[i]),
    ));
    shown
}

impl<T> Config<T> {
    /// The places where a template is looked for, in the order of the
    /// search: beside the anchor, if there is one, and then below each
    /// directory.
    pub fn search_places(&self, path: &str, start_at: Option<&str>) -> (places: Vec<String>)
        ensures
            places.deep_view() == search_path(self@.dirs, path@, anchor_text(start_at)),
    {
        let ghost wanted = search_path(self@.dirs, path@, anchor_text(start_at));
        let ghost offset: int = if start_at is Some { 1 } else { 0 };
        let dirs = self.dirs();
        let mut places: Vec<String> = Vec::new();
        match start_at {
            Some(anchor) => {
                places.push(path_with_file_name(anchor, path));
            },
            None => {},
        }
        let mut i: usize = 0;
        while i < dirs.len()
            invariant
                i <= dirs.len(),
                dirs.deep_view() == self@.dirs,
                wanted == search_path(self@.dirs, path@, anchor_text(start_at)),
                offset == (if start_at is Some { 1int } else { 0int }),
                places@.len() == offset + i,
                forall|at: int| 0 <= at < places@.len() ==> (#[trigger] places@[at])@ == wanted[at],
            decreases dirs.len() - i,
        {
            let rooted = join_path(dirs[i].as_str(), path);
            assert(rooted@ == wanted[offset + i]) by {
                assert(self@.dirs[i as int] == dirs@[i as int]@);
            }
            places.push(rooted);
            i = i + 1;
        }
        assert(places.deep_view() =~= wanted);
        places
    }

    /// Finds the file of a template. The places of `search_places` are
    /// asked about in their order: with an anchor the place beside it comes
    /// first, then `path` below each directory. The first place of which
    /// `probe` says that it exists is returned, and no later place is asked
    /// about. Where `probe` says so of none, the error lists every place
    /// that was tried.
    pub fn find_template<F>(
        &self,
        path: &str,
        start_at: Option<&str>,
        file_info: Option<String>,
        probe: F,
    ) -> (res: Result<String, CompileError>)
        where F: Fn(&String) -> bool
        requires
            forall|asked: &String| probe.requires((asked,)),
        ensures
            ({
                let places = search_path(self@.dirs, path@, anchor_text(start_at));
                match res {
                    Ok(found) => exists|at: int|
                        {
                            &&& 0 <= at < places.len()
                            &&& found@ == #[trigger] places[at]
                            &&& probe_says(probe, places[at], true)
                            &&& forall|before: int|
                                0 <= before < at ==> probe_says(probe, #[trigger] places[before], false)
                        },
                    Err(err) => {
                        &&& forall|at: int|
                            0 <= at < places.len() ==> probe_says(probe, #[trigger] places[at], false)
                        &&& err@ == not_found_fault(
                            self@.dirs,
                            path@,
                            anchor_text(start_at),
                            file_info.deep_view(),
                        )
                    },
                }
            }),
    {
        let ghost wanted = search_path(self@.dirs, path@, anchor_text(start_at));
        let places = self.search_places(path, start_at);
        match first_found(&places, &probe) {
            Some(at) => {
                proof {
                    assert(places.deep_view()[at as int] == wanted[at as int]);
                    assert(probe_says(probe, wanted[at as int], true));
                    assert forall|before: int| 0 <= before < at implies probe_says(
                        probe,
                        #[trigger] wanted[before],
                        false,
                    ) by {
                        assert(places.deep_view()[before] == wanted[before]);
                        assert(probe.ensures((&places@[before],), false));
                    }
                }
                Ok(places[at].clone())
            },
            None => {
                proof {
                    assert forall|at: int| 0 <= at < wanted.len() implies probe_says(
                        probe,
                        #[trigger] wanted[at],
                        false,
                    ) by {
                        assert(places.deep_view()[at] == wanted[at]);
                        assert(probe.ensures((&places@[at],), false));
                    }
                }
                let shown_relative: Option<String> = match start_at {
                    Some(_) => {
                        assert(places.deep_view()[0] == wanted[0]);
                        Some(debug_path(places[0].as_str()))
                    },
                    None => None,
                };
                let shown_path = debug_str(path);
                let shown = shown_dirs(self.dirs());
                let listed = list_text(&shown);
                let msg = match &shown_relative {
                    Some(relative) => not_found_message(
                        shown_path.as_str(),
                        Some(relative.as_str()),
                        listed.as_str(),
                    ),
                    None => not_found_message(shown_path.as_str(), None, listed.as_str()),
                };
                proof {
                    assert(shown.deep_view() =~= Seq::new(
                        self@.dirs.len(),
                        |i: int| path_quoted(self@.dirs[i]),
                    ));
                }
                Err(CompileError::new(ErrorKind::NotFound, msg, file_info))
            },
        }
    }
}

} // verus!
