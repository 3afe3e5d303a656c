//! The text of output lines, with the terminal styling of verbose output.
use vstd::prelude::*;
use crate::query::{AnnotationView, LineView, OutputLine, Annotation};

verus! {

/// The bold styles that output uses.
#[derive(Clone, Copy, PartialEq, Eq, Structural)]
pub enum Tint {
    Plain,
    Red,
    Green,
    Magenta,
    Cyan,
}

/// The ANSI select-graphic-rendition codes of a bold tint.
pub open spec fn tint_codes(t: Tint) -> Seq<char> {
    match t {
        Tint::Plain => seq!['1'],
        Tint::Red => seq!['1', ';', '3', '1'],
        Tint::Green => seq!['1', ';', '3', '2'],
        Tint::Magenta => seq!['1', ';', '3', '5'],
        Tint::Cyan => seq!['1', ';', '3', '6'],
    }
}

/// `text` between the escape sequence that selects the tint and the one that resets.
pub open spec fn painted(t: Tint, text: Seq<char>) -> Seq<char> {
    seq!['\x1b', '['] + tint_codes(t) + seq!['m'] + text + seq!['\x1b', '[', '0', 'm']
}

/// Relies on nu_ansi_term: a bold style (`Color::bold`, `Style::bold`) painted
/// over a text (`paint`, then `Display`) writes the style's prefix
/// `ESC [ 1 [; 3x] m`, the text, and the reset `ESC [ 0 m`.
#[verifier::external_body]
pub(crate) fn paint(t: Tint, text: &str) -> (r: String)
    ensures
        r@ == painted(t, text@),
{
    let style = match t {
        Tint::Plain => nu_ansi_term::Style::new().bold(),
        Tint::Red => nu_ansi_term::Color::Red.bold(),
        Tint::Green => nu_ansi_term::Color::Green.bold(),
        Tint::Magenta => nu_ansi_term::Color::Magenta.bold(),
        Tint::Cyan => nu_ansi_term::Color::Cyan.bold(),
    };
    style.paint(text).to_string()
}

/// The text of the installed-version annotation.
pub open spec fn annotation_text(a: AnnotationView) -> Seq<char> {
    match a {
        AnnotationView::NotInstalled => Seq::empty(),
        AnnotationView::Installed => " "@ + painted(Tint::Cyan, "[installed]"@),
        AnnotationView::InstalledOther(v) => " "@ + painted(
            Tint::Cyan,
            "[installed: "@ + v + "]"@,
        ),
    }
}

/// The text of one output line.
pub open spec fn rendered(l: LineView) -> Seq<char> {
    match l {
        LineView::Owner { repo, pkgname } => repo + "/"@ + pkgname,
        LineView::Header { repo, pkgname, version, installed } => painted(
            Tint::Magenta,
            repo + "/"@,
        ) + painted(Tint::Plain, pkgname) + " "@ + painted(Tint::Green, version)
            + annotation_text(installed),
        LineView::Path { path } => "    "@ + path,
        LineView::OwnedBy { path, repo, pkgname, version } => path + " is owned by "@ + painted(
            Tint::Magenta,
            repo + "/"@,
        ) + painted(Tint::Plain, pkgname) + " "@ + painted(Tint::Green, version),
    }
}

/// The styled name of a package in repository `repo`, and its version.
fn package_text(repo: &String, pkgname: &String, version: &String) -> (r: String)
    ensures
        r@ == painted(Tint::Magenta, repo@ + "/"@) + painted(Tint::Plain, pkgname@) + " "@
            + painted(Tint::Green, version@),
{
    let mut prefix = repo.clone();
    prefix.append("/");
    let mut r = paint(Tint::Magenta, prefix.as_str());
    r.append(paint(Tint::Plain, pkgname.as_str()).as_str());
    r.append(" ");
    r.append(paint(Tint::Green, version.as_str()).as_str());
    r
}

/// The text of one output line, without its newline.
pub fn render_line(line: &OutputLine) -> (r: String)
    ensures
        r@ == rendered(line@),
{
    match line {
        OutputLine::Owner { repo, pkgname } => {
            let mut r = repo.clone();
            r.append("/");
            r.append(pkgname.as_str());
            r
        },
        OutputLine::Header { repo, pkgname, version, installed } => {
            let mut r = package_text(repo, pkgname, version);
            match installed {
                Annotation::NotInstalled => {},
                Annotation::Installed => {
                    r.append(" ");
                    r.append(paint(Tint::Cyan, "[installed]").as_str());
                },
                Annotation::InstalledOther(v) => {
                    let mut text = String::from_str("[installed: ");
                    text.append(v.as_str());
                    text.append("]");
                    r.append(" ");
                    r.append(paint(Tint::Cyan, text.as_str()).as_str());
                },
            }
            r
        },
        OutputLine::Path { path } => {
            let mut r = String::from_str("    ");
            r.append(path.as_str());
            r
        },
        OutputLine::OwnedBy { path, repo, pkgname, version } => {
            let mut r = path.clone();
            r.append(" is owned by ");
            r.append(package_text(repo, pkgname, version).as_str());
            r
        },
    }
}

} // verus!
