//! Application state from the desktop application remote: installed
//! applications and pending updates, parsed from the column-oriented
//! listings its command-line tool prints.

use vstd::prelude::*;

verus! {

use crate::text;

/// One installed application.
#[derive(Debug)]
pub struct FlatpakApp {
    pub application: String,
    pub version: String,
    pub branch: String,
    pub origin: String,
}

/// One pending application update.
#[derive(Debug)]
pub struct FlatpakUpdate {
    pub application: String,
    pub branch: String,
    pub origin: String,
    pub available: String,
}

/// Collected application state for the manifest.
#[derive(Debug)]
pub struct FlatpakState {
    pub enabled: bool,
    pub installed_count: usize,
    pub installed: Vec<FlatpakApp>,
    pub update_count: usize,
    pub updates: Vec<FlatpakUpdate>,
}

/// The fields parsed from one listing line: the whitespace-separated
/// columns, missing ones empty, provided the line has a non-empty first
/// column.
pub open spec fn spec_line_field(tokens: Seq<Seq<char>>, i: int) -> Seq<char> {
    if 0 <= i < tokens.len() {
        tokens[i]
    } else {
        Seq::empty()
    }
}

/// Whether a listing line yields an item: it must have a non-empty first
/// column.
pub open spec fn spec_line_has_item(line: Seq<char>) -> bool {
    text::split_ws(line).len() > 0
}

/// Extract up to four whitespace-separated columns from one listing line.
/// Returns `None` for lines without a first column.
pub fn parse_columns(line: &str) -> (r: Option<(String, String, String, String)>)
    ensures
        r is Some <==> spec_line_has_item(line@),
        r matches Some(cols) ==> ({
            let t = text::split_ws(line@);
            cols.0@ == spec_line_field(t, 0) && cols.1@ == spec_line_field(t, 1) && cols.2@
                == spec_line_field(t, 2) && cols.3@ == spec_line_field(t, 3)
        }),
{
    let mut tokens = text::split_str_ws(line);
    if tokens.len() == 0 {
        return None;
    }
    let c0 = take_or_empty(&tokens, 0);
    let c1 = take_or_empty(&tokens, 1);
    let c2 = take_or_empty(&tokens, 2);
    let c3 = take_or_empty(&tokens, 3);
    proof {
        let t = text::split_ws(line@);
        assert(tokens.deep_view() == t);
        assert(c0@ == tokens.deep_view()[0]);
    }
    Some((c0, c1, c2, c3))
}

/// The token at an index, or an empty string when the list is shorter.
fn take_or_empty(tokens: &Vec<String>, i: usize) -> (r: String)
    ensures
        r@ == spec_line_field(tokens.deep_view(), i as int),
{
    if i < tokens.len() {
        let s = tokens[i].clone();
        proof {
            assert(s@ == tokens.deep_view()[i as int]);
        }
        s
    } else {
        String::new()
    }
}

/// One parsed line of the installed-applications listing.
pub open spec fn spec_installed_app(line: Seq<char>) -> FlatpakAppModel {
    let t = text::split_ws(line);
    FlatpakAppModel {
        application: spec_line_field(t, 0),
        version: spec_line_field(t, 1),
        branch: spec_line_field(t, 2),
        origin: spec_line_field(t, 3),
    }
}

/// One parsed line of the pending-updates listing.
pub open spec fn spec_update(line: Seq<char>) -> FlatpakUpdateModel {
    let t = text::split_ws(line);
    FlatpakUpdateModel {
        application: spec_line_field(t, 0),
        branch: spec_line_field(t, 1),
        origin: spec_line_field(t, 2),
        available: spec_line_field(t, 3),
    }
}

/// Mathematical model of a `FlatpakApp`.
pub ghost struct FlatpakAppModel {
    pub application: Seq<char>,
    pub version: Seq<char>,
    pub branch: Seq<char>,
    pub origin: Seq<char>,
}

impl DeepView for FlatpakApp {
    type V = FlatpakAppModel;

    open spec fn deep_view(&self) -> FlatpakAppModel {
        self.view()
    }
}

impl View for FlatpakApp {
    type V = FlatpakAppModel;

    open spec fn view(&self) -> FlatpakAppModel {
        FlatpakAppModel {
            application: self.application@,
            version: self.version@,
            branch: self.branch@,
            origin: self.origin@,
        }
    }
}

/// Mathematical model of a `FlatpakUpdate`.
pub ghost struct FlatpakUpdateModel {
    pub application: Seq<char>,
    pub branch: Seq<char>,
    pub origin: Seq<char>,
    pub available: Seq<char>,
}

impl DeepView for FlatpakUpdate {
    type V = FlatpakUpdateModel;

    open spec fn deep_view(&self) -> FlatpakUpdateModel {
        self.view()
    }
}

impl View for FlatpakUpdate {
    type V = FlatpakUpdateModel;

    open spec fn view(&self) -> FlatpakUpdateModel {
        FlatpakUpdateModel {
            application: self.application@,
            branch: self.branch@,
            origin: self.origin@,
            available: self.available@,
        }
    }
}

/// The applications parsed from the installed listing: one per line with a
/// non-empty first column, in line order.
pub open spec fn spec_parse_installed(lines: Seq<Seq<char>>) -> Seq<FlatpakAppModel>
    decreases lines.len(),
{
    if lines.len() == 0 {
        Seq::empty()
    } else {
        let init = spec_parse_installed(lines.drop_last());
        if spec_line_has_item(lines.last()) {
            init.push(spec_installed_app(lines.last()))
        } else {
            init
        }
    }
}

/// The updates parsed from the pending-updates listing: one per line with a
/// non-empty first column, in line order.
pub open spec fn spec_parse_updates(lines: Seq<Seq<char>>) -> Seq<FlatpakUpdateModel>
    decreases lines.len(),
{
    if lines.len() == 0 {
        Seq::empty()
    } else {
        let init = spec_parse_updates(lines.drop_last());
        if spec_line_has_item(lines.last()) {
            init.push(spec_update(lines.last()))
        } else {
            init
        }
    }
}

/// Parse the installed-applications listing, one application per line.
pub fn capture_installed(output: &str) -> (r: Vec<FlatpakApp>)
    ensures
        r.deep_view() == spec_parse_installed(text::split_char(output@, '\n')),
{
    let lines = text::lines_of(output);
    let mut r: Vec<FlatpakApp> = Vec::new();
    let mut i: usize = 0;
    proof {
        assert(lines.deep_view().take(0) =~= Seq::<Seq<char>>::empty());
        assert(r.deep_view() =~= Seq::<FlatpakAppModel>::empty());
    }
    while i < lines.len()
        invariant
            i <= lines@.len(),
            lines.deep_view() == text::split_char(output@, '\n'),
            r.deep_view() =~= spec_parse_installed(lines.deep_view().take(i as int)),
        decreases lines@.len() - i,
    {
        let cols = parse_columns(lines[i].as_str());
        let ghost old_r = r.deep_view();
        match cols {
            Some((application, version, branch, origin)) => {
                r.push(FlatpakApp { application, version, branch, origin });
            },
            None => {},
        }
        proof {
            let lv = lines.deep_view();
            assert(lv.take(i + 1).drop_last() =~= lv.take(i as int));
            assert(lv.take(i + 1).last() == lv[i as int]);
            assert(lines@[i as int]@ == lv[i as int]);
            assert(r.deep_view() =~= spec_parse_installed(lv.take(i + 1)));
        }
        i = i + 1;
    }
    proof {
        assert(lines.deep_view().take(lines@.len() as int) =~= lines.deep_view());
    }
    r
}

/// Parse the pending-updates listing, one update per line.
pub fn capture_updates(output: &str) -> (r: Vec<FlatpakUpdate>)
    ensures
        r.deep_view() == spec_parse_updates(text::split_char(output@, '\n')),
{
    let lines = text::lines_of(output);
    let mut r: Vec<FlatpakUpdate> = Vec::new();
    let mut i: usize = 0;
    proof {
        assert(lines.deep_view().take(0) =~= Seq::<Seq<char>>::empty());
        assert(r.deep_view() =~= Seq::<FlatpakUpdateModel>::empty());
    }
    while i < lines.len()
        invariant
            i <= lines@.len(),
            lines.deep_view() == text::split_char(output@, '\n'),
            r.deep_view() =~= spec_parse_updates(lines.deep_view().take(i as int)),
        decreases lines@.len() - i,
    {
        let cols = parse_columns(lines[i].as_str());
        match cols {
            Some((application, branch, origin, available)) => {
                r.push(FlatpakUpdate { application, branch, origin, available });
            },
            None => {},
        }
        proof {
            let lv = lines.deep_view();
            assert(lv.take(i + 1).drop_last() =~= lv.take(i as int));
            assert(lv.take(i + 1).last() == lv[i as int]);
            assert(lines@[i as int]@ == lv[i as int]);
            assert(r.deep_view() =~= spec_parse_updates(lv.take(i + 1)));
        }
        i = i + 1;
    }
    proof {
        assert(lines.deep_view().take(lines@.len() as int) =~= lines.deep_view());
    }
    r
}

/// Assemble the application state the manifest records from the two parsed
/// listings.
pub fn collect_flatpak(installed: Vec<FlatpakApp>, updates: Vec<FlatpakUpdate>) -> (r: FlatpakState)
    ensures
        r.enabled,
        r.installed_count == installed@.len(),
        r.update_count == updates@.len(),
        r.installed.deep_view() == installed.deep_view(),
        r.updates.deep_view() == updates.deep_view(),
{
    let installed_count = installed.len();
    let update_count = updates.len();
    FlatpakState { enabled: true, installed_count, installed, update_count, updates }
}

} // verus!
