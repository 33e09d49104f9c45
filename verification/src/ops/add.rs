//! `ditto add`: move an existing file into a package of the repository,
//! leave a symlink in its place and record the mapping in `ditto.toml`.

use vstd::prelude::*;
use vstd::string::*;

use crate::error::{DittoError, DittoErrorView};
use crate::ops::{Action, ActionView, Level, cat2, cat3, cat4};
use crate::paths::{
    expand_tilde_in, file_name, join, option_view, parent, relative_to_home_in, result_view,
    spec_expand_tilde, spec_file_name, spec_join, spec_parent, spec_relative_to_home, tilde_cut_ok,
};
use crate::toml_doc::{
    array_push_table, document_text, inline_table_insert, inline_table_new, item_as_array_mut,
    item_get_mut, parse_document, root_get_mut, toml_error_message, toml_parses,
    array_elements, doc_contents, doc_text, graft, item_contents, table_entries, toml_contents, under,
    Contents, Element, Entry, as_table,
};
use toml_edit::{DocumentMut, InlineTable, Item};

verus! {

/// The path's first component is `~`.
pub open spec fn starts_with_tilde(p: Seq<char>) -> bool {
    p.len() >= 1 && p[0] == '~' && (p.len() == 1 || p[1] == '/')
}

/// The file to add: a path whose first component is `~` is expanded.
pub open spec fn spec_resolve(p: Seq<char>, home: Option<Seq<char>>) -> Result<
    Seq<char>,
    DittoErrorView,
> {
    if starts_with_tilde(p) {
        spec_expand_tilde(p, home)
    } else {
        Ok(p)
    }
}

/// Resolves the path of the file to add (see `spec_resolve`).
pub fn resolve_path(path: &str, home: &Option<String>) -> (r: Result<String, DittoError>)
    requires
        starts_with_tilde(path@) ==> tilde_cut_ok(path@),
    ensures
        result_view(r) == spec_resolve(path@, option_view(*home)),
{
    let n = path.unicode_len();
    if n >= 1 && path.get_char(0) == '~' && (n == 1 || path.get_char(1) == '/') {
        expand_tilde_in(path, home)
    } else {
        Ok(String::from_str(path))
    }
}

/// The actions that add `file` (already resolved, and existing when
/// `exists`) to `package`: the file moves to `root/package/<name>`, a
/// symlink takes its place, and the mapping `package/<name>` ->
/// `~/<file relative to home>` is recorded in the configuration file. A dry
/// run only describes the move, the link and the update.
pub open spec fn spec_plan(
    config_path: Seq<char>,
    root: Seq<char>,
    file: Seq<char>,
    package: Seq<char>,
    dry_run: bool,
    home: Option<Seq<char>>,
    exists: bool,
) -> Result<Seq<ActionView>, DittoErrorView> {
    if !exists {
        Err(DittoErrorView::FileNotFound(file))
    } else {
        match spec_file_name(file) {
            None => Err(DittoErrorView::NoFileName(file)),
            Some(name) => {
                let dest = spec_join(spec_join(root, package), name);
                let src_relative = package + "/"@ + name;
                match spec_relative_to_home(file, home) {
                    Err(e) => Err(e),
                    Ok(rel) => {
                        let target_relative = "~/"@ + rel;
                        if dry_run {
                            Ok(
                                seq![
                                    ActionView::Say(
                                        Level::DryRun,
                                        "would move "@ + file + " into repo at "@ + dest,
                                    ),
                                    ActionView::Say(
                                        Level::DryRun,
                                        "would link "@ + target_relative + " --> "@ + src_relative,
                                    ),
                                    ActionView::Say(
                                        Level::DryRun,
                                        "would update config at "@ + config_path,
                                    ),
                                ],
                            )
                        } else {
                            let make_dir = match spec_parent(dest) {
                                Some(p) => seq![ActionView::CreateDirAll(p)],
                                None => seq![],
                            };
                            Ok(
                                make_dir + seq![
                                    ActionView::Rename { from: file, to: dest },
                                    ActionView::Say(
                                        Level::Success,
                                        "moved "@ + file + " into repo at "@ + dest,
                                    ),
                                    ActionView::CreateSymlink { source: dest, target: file },
                                    ActionView::Say(
                                        Level::Success,
                                        "symlinked "@ + file + " --> "@ + dest,
                                    ),
                                    ActionView::UpdateConfig {
                                        path: config_path,
                                        package,
                                        src: src_relative,
                                        target: target_relative,
                                    },
                                    ActionView::Say(
                                        Level::Success,
                                        "updated config at "@ + config_path,
                                    ),
                                ],
                            )
                        }
                    },
                }
            },
        }
    }
}

/// Actions, taken by their views.
pub open spec fn actions_view(v: Seq<Action>) -> Seq<ActionView> {
    v.map_values(|a: Action| a@)
}

/// The actions that add a file to a package (see `spec_plan`).
pub fn plan(
    config_path: &str,
    root: &str,
    file: &str,
    package: &str,
    dry_run: bool,
    home: &Option<String>,
    exists: bool,
) -> (r: Result<Vec<Action>, DittoError>)
    ensures
        match r {
            Ok(v) => spec_plan(config_path@, root@, file@, package@, dry_run, option_view(*home), exists)
                == Ok::<Seq<ActionView>, DittoErrorView>(actions_view(v@)),
            Err(e) => spec_plan(config_path@, root@, file@, package@, dry_run, option_view(*home), exists)
                == Err::<Seq<ActionView>, DittoErrorView>(e@),
        },
{
    if !exists {
        return Err(DittoError::FileNotFound(String::from_str(file)));
    }
    let name = match file_name(file) {
        None => return Err(DittoError::NoFileName(String::from_str(file))),
        Some(n) => n,
    };
    let dir = join(root, package);
    let dest = join(dir.as_str(), name.as_str());
    let src_relative = cat3(package, "/", name.as_str());
    let rel = match relative_to_home_in(file, home) {
        Err(e) => return Err(e),
        Ok(r) => r,
    };
    let target_relative = cat2("~/", rel.as_str());
    let mut out: Vec<Action> = Vec::new();
    if dry_run {
        out.push(
            Action::Say(Level::DryRun, cat4("would move ", file, " into repo at ", dest.as_str())),
        );
        out.push(
            Action::Say(
                Level::DryRun,
                cat4("would link ", target_relative.as_str(), " --> ", src_relative.as_str()),
            ),
        );
        out.push(Action::Say(Level::DryRun, cat2("would update config at ", config_path)));
        assert(actions_view(out@) =~= spec_plan(config_path@, root@, file@, package@, dry_run, option_view(*home), exists)->Ok_0);
        return Ok(out);
    }
    let ghost make_dir = match spec_parent(dest@) {
        Some(p) => seq![ActionView::CreateDirAll(p)],
        None => seq![],
    };
    match parent(dest.as_str()) {
        Some(p) => out.push(Action::CreateDirAll(p)),
        None => {},
    }
    assert(actions_view(out@) =~= make_dir);
    out.push(Action::Rename { from: String::from_str(file), to: dest.clone() });
    out.push(
        Action::Say(Level::Success, cat4("moved ", file, " into repo at ", dest.as_str())),
    );
    out.push(Action::CreateSymlink { source: dest.clone(), target: String::from_str(file) });
    out.push(Action::Say(Level::Success, cat4("symlinked ", file, " --> ", dest.as_str())));
    out.push(
        Action::UpdateConfig {
            path: String::from_str(config_path),
            package: String::from_str(package),
            src: src_relative,
            target: target_relative,
        },
    );
    out.push(Action::Say(Level::Success, cat2("updated config at ", config_path)));
    assert(actions_view(out@) =~= spec_plan(config_path@, root@, file@, package@, dry_run, option_view(*home), exists)->Ok_0);
    Ok(out)
}

/// Where the file mappings of `package` are: `packages.<package>.files`.
pub open spec fn files_path(package: Seq<char>) -> Seq<Seq<char>> {
    seq!["packages"@, package, "files"@]
}

/// The parsed configuration `content` has an array at
/// `packages.<package>.files`.
pub open spec fn has_files_array(content: Seq<char>, package: Seq<char>) -> bool {
    toml_contents(content) matches Some(c) && is_array_at(c, files_path(package))
}

/// `contents` has an array at `path`.
pub open spec fn is_array_at(contents: Contents, path: Seq<Seq<char>>) -> bool {
    contents.contains_key(path) && contents[path] is Array
}

/// The table that records one file mapping.
pub open spec fn mapping_entry(src: Seq<char>, target: Seq<char>) -> Map<Seq<char>, Seq<char>> {
    map!["src"@ => src, "target"@ => target]
}

/// `contents` with `element` added at the end of the array at `path`.
pub open spec fn append_at(contents: Contents, path: Seq<Seq<char>>, element: Element) -> Contents {
    contents.insert(path, Entry::Array(contents[path]->Array_0.push(element)))
}

/// A configuration's contents after the mapping `src` -> `target` is added
/// to `package`: its files array gains that table at its end, and everything
/// else stays as it was.
pub open spec fn with_mapping(
    contents: Contents,
    package: Seq<char>,
    src: Seq<char>,
    target: Seq<char>,
) -> Contents {
    append_at(contents, files_path(package), Element::Table(mapping_entry(src, target)))
}

/// Appends `table` to `item` when it is an array.
fn push_into(item: &mut Item, table: InlineTable) -> (added: bool)
    ensures
        added <==> is_array_at(item_contents(*old(item)), Seq::<Seq<char>>::empty()),
        added ==> item_contents(*final(item)) == append_at(
            item_contents(*old(item)),
            Seq::<Seq<char>>::empty(),
            Element::Table(table_entries(table)),
        ),
{
    match item_as_array_mut(item) {
        None => false,
        Some(array) => {
            array_push_table(array, table);
            proof {
                let e = Seq::<Seq<char>>::empty();
                assert(map![e => Entry::Array(array_elements(*array))] =~= append_at(
                    item_contents(*old(item)),
                    e,
                    Element::Table(table_entries(table)),
                ));
            }
            true
        },
    }
}

/// Appends `table` to the array at the path of `key` and `next` (when
/// given) in `item`, when there is one.
fn push_below(item: &mut Item, key: &str, next: Option<&str>, table: InlineTable) -> (added: bool)
    ensures
        added <==> is_array_at(item_contents(*old(item)), seq![key@] + below_path(next)),
        added ==> item_contents(*final(item)) == append_at(
            item_contents(*old(item)),
            seq![key@] + below_path(next),
            Element::Table(table_entries(table)),
        ),
    decreases below_path(next).len(),
{
    let ghost before = item_contents(*item);
    match item_get_mut(item, key) {
        None => {
            proof {
                lemma_under_key(before, key@, below_path(next));
            }
            false
        },
        Some(child) => {
            let added = match next {
                None => push_into(child, table),
                Some(k) => push_below(child, k, None, table),
            };
            proof {
                lemma_under_key(before, key@, below_path(next));
                if added {
                    lemma_graft_append(
                        before,
                        key@,
                        below_path(next),
                        Element::Table(table_entries(table)),
                    );
                }
            }
            added
        },
    }
}

/// The path `next` names: that key alone, or the empty path.
pub open spec fn below_path(next: Option<&str>) -> Seq<Seq<char>> {
    match next {
        Some(k) => seq![k@],
        None => Seq::<Seq<char>>::empty(),
    }
}

/// A path below `key` is there exactly when the path with `key` in front
/// is; then the contents are not empty and stay so when made a table.
proof fn lemma_under_key(contents: Contents, key: Seq<char>, rest: Seq<Seq<char>>)
    ensures
        under(contents, key).contains_key(rest) <==> contents.contains_key(seq![key] + rest),
        under(contents, key).contains_key(rest) ==> under(contents, key)[rest] == contents[seq![key]
            + rest],
        under(contents, key).dom() == Set::<Seq<Seq<char>>>::empty() ==> !contents.contains_key(
            seq![key] + rest,
        ),
        contents.contains_key(seq![key] + rest) ==> as_table(contents) == contents,
{
    if contents.contains_key(seq![key] + rest) {
        assert(under(contents, key).dom().contains(rest));
        assert(contents.dom().contains(seq![key] + rest));
    }
}

/// Adding below `key` and putting the result back under `key` adds at the
/// path with `key` in front.
proof fn lemma_graft_append(
    contents: Contents,
    key: Seq<char>,
    rest: Seq<Seq<char>>,
    element: Element,
)
    requires
        contents.contains_key(seq![key] + rest),
    ensures
        graft(contents, key, append_at(under(contents, key), rest, element)) == append_at(
            contents,
            seq![key] + rest,
            element,
        ),
{
    let lhs = graft(contents, key, append_at(under(contents, key), rest, element));
    let rhs = append_at(contents, seq![key] + rest, element);
    assert forall|p: Seq<Seq<char>>| #[trigger] lhs.contains_key(p) <==> rhs.contains_key(p) by {
        if p.len() > 0 && p[0] == key {
            assert(seq![key] + p.drop_first() =~= p);
        }
        if p == seq![key] + rest {
            assert(p.drop_first() =~= rest);
        }
    }
    assert forall|p: Seq<Seq<char>>| #[trigger] lhs.contains_key(p) implies lhs[p] == rhs[p] by {
        if p.len() > 0 && p[0] == key {
            assert(seq![key] + p.drop_first() =~= p);
            if p.drop_first() == rest {
                assert(p =~= seq![key] + rest);
            } else if p == seq![key] + rest {
                assert(p.drop_first() =~= rest);
            }
        } else {
            assert(p != seq![key] + rest) by {
                if p == seq![key] + rest {
                    assert(p[0] == key);
                }
            }
        }
    }
    assert(lhs =~= rhs);
}

/// Adds `{ src = src, target = target }` to the `files` array of
/// `packages.<package>` in the configuration text `content`. Fails with
/// `ConfigSyntax` (the parser's message) exactly when the text is no TOML
/// document, and with `FilesArrayMissing` exactly when it is one without that
/// array. Otherwise the result is the text of a document whose contents are
/// the parsed configuration's with that table added at the end of the files
/// array, and nothing else changed (see `with_mapping`).
pub fn insert_mapping(content: &str, package: &str, src: &str, target: &str) -> (r: Result<
    String,
    DittoError,
>)
    ensures
        (r matches Err(e) && e is ConfigSyntax) <==> !toml_parses(content@),
        toml_parses(content@) && !has_files_array(content@, package@) ==> (r matches Err(e) && e@
            == DittoErrorView::FilesArrayMissing(package@)),
        r is Ok <==> has_files_array(content@, package@),
        r matches Ok(t) ==> exists|d: DocumentMut|
            #[trigger] doc_text(d) == t@ && doc_contents(d) == with_mapping(
                toml_contents(content@)->Some_0,
                package@,
                src@,
                target@,
            ),
{
    let mut doc = match parse_document(content) {
        Ok(d) => d,
        Err(e) => return Err(DittoError::ConfigSyntax(toml_error_message(&e))),
    };
    let ghost contents = doc_contents(doc);
    let ghost rest = seq![package@, "files"@];
    proof {
        reveal_strlit("packages");
        reveal_strlit("files");
        reveal_strlit("src");
        reveal_strlit("target");
        assert(seq!["packages"@] + rest =~= files_path(package@));
        assert(seq![package@] + below_path(Some("files")) =~= rest);
        lemma_under_key(contents, "packages"@, rest);
    }
    let mut table = inline_table_new();
    inline_table_insert(&mut table, "src", src);
    inline_table_insert(&mut table, "target", target);
    assert(table_entries(table) =~= mapping_entry(src@, target@));
    let added = match root_get_mut(&mut doc, "packages") {
        None => false,
        Some(packages) => {
            let added = push_below(packages, package, Some("files"), table);
            proof {
                if added {
                    lemma_graft_append(
                        contents,
                        "packages"@,
                        rest,
                        Element::Table(mapping_entry(src@, target@)),
                    );
                }
            }
            added
        },
    };
    if added {
        let text = document_text(&doc);
        assert(doc_contents(doc) == with_mapping(contents, package@, src@, target@));
        Ok(text)
    } else {
        Err(DittoError::FilesArrayMissing(String::from_str(package)))
    }
}

} // verus!
