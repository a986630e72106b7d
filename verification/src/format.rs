//! Rendering of classified entries into display lines.

use vstd::prelude::*;
use vstd::string::{StringExecFns, StrSliceExecFns};

use crate::file::File;
use crate::paint::{esc_free, paint_bold_cyan, paint_bold_green, wrapped};
use crate::Args;

verus! {

broadcast use vstd::string::group_string_axioms;

/// The text shown for a repository that carries no description.
pub open spec fn no_description_text() -> Seq<char> {
    "No description"@
}

/// The listing suffix of an entry's display line: with `list`, a
/// repository entry shows its description — or the fixed placeholder —
/// after a comma; everything else adds nothing.
pub open spec fn display_suffix(file: File, list: bool) -> Seq<char> {
    match file.repo {
        Some(r) => if list {
            ", "@ + match r.description {
                Some(d) => d@,
                None => no_description_text(),
            }
        } else {
            Seq::<char>::empty()
        },
        None => Seq::<char>::empty(),
    }
}

/// What a display line holds: the entry's name, styled when the entry is
/// a repository or a directory, followed by the listing suffix.  Styling
/// keeps the name verbatim whenever the name carries no escape character
/// of its own; a plain entry's line is exact in every case.
pub open spec fn formatted(file: File, list: bool, out: Seq<char>) -> bool {
    match file.repo {
        Some(_) => esc_free(file.name@) ==> exists|styled: Seq<char>|
            #[trigger] wrapped(file.name@, styled) && out == styled + display_suffix(file, list),
        None => if file.is_dir {
            esc_free(file.name@) ==> exists|styled: Seq<char>|
                #[trigger] wrapped(file.name@, styled) && out == styled + display_suffix(
                    file,
                    list,
                )
        } else {
            out == file.name@ + display_suffix(file, list)
        },
    }
}

/// One entry's display line: repositories are painted bold green and bare
/// directories bold cyan; with `list`, a repository line carries its
/// description after the name.
pub fn format_file(file: File, args: &Args) -> (r: String)
    ensures
        formatted(file, args.list, r@),
{
    let is_repo = file.repo.is_some();
    let mut display: String;
    if is_repo {
        display = paint_bold_green(file.name.as_str());
    } else if file.is_dir {
        display = paint_bold_cyan(file.name.as_str());
    } else {
        display = file.name.as_str().to_owned();
    }
    let ghost styled = display@;
    if args.list && is_repo {
        let desc = match file.repo {
            Some(r) => match r.description {
                Some(d) => d,
                None => String::from_str("No description"),
            },
            None => String::new(),
        };
        display.append(", ");
        display.append(desc.as_str());
        proof {
            assert(display@ =~= styled + display_suffix(file, args.list));
        }
    } else {
        proof {
            assert(display@ =~= styled + display_suffix(file, args.list));
        }
    }
    display
}

/// The display lines of a whole listing, one per entry, in order.
pub fn format_files(files: Vec<File>, args: &Args) -> (r: Vec<String>)
    ensures
        r@.len() == files@.len(),
        forall|i: int| 0 <= i < files@.len() ==> formatted(files@[i], args.list, r@[i]@),
{
    let ghost orig = files@;
    let mut rest = files;
    let mut out: Vec<String> = Vec::new();
    while rest.len() > 0
        invariant
            out@.len() + rest@.len() == orig.len(),
            rest@ == orig.subrange(out@.len() as int, orig.len() as int),
            forall|i: int| 0 <= i < out@.len() ==> formatted(orig[i], args.list, out@[i]@),
        decreases rest@.len(),
    {
        let f = rest.remove(0);
        out.push(format_file(f, args));
        proof {
            assert(rest@ =~= orig.subrange(out@.len() as int, orig.len() as int));
        }
    }
    out
}

} // verus!
