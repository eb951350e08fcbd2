use crate::metadata::{texts, Permissions};
use crate::model::NodeView;
use crate::node::FSNode;
use vstd::prelude::*;
use vstd::string::*;

verus! {

/// How the standard library's `Debug` writes a list of strings: the items
/// in quotes, with its escapes, between square brackets.
pub uninterp spec fn debug_list_text(items: Seq<Seq<char>>) -> Seq<char>;

/// Formats `items` with `{:?}`, the `Debug` form of `Vec<String>`. The
/// contract gives the result its name and claims no more of it.
#[verifier::external_body]
pub(crate) fn debug_list(items: &Vec<String>) -> (text: String)
    ensures
        text@ == debug_list_text(texts(items@)),
{
    format!("{:?}", items)
}

/// One decimal digit.
pub open spec fn digit_text(d: nat) -> Seq<char> {
    if d == 0 {
        "0"@
    } else if d == 1 {
        "1"@
    } else if d == 2 {
        "2"@
    } else if d == 3 {
        "3"@
    } else if d == 4 {
        "4"@
    } else if d == 5 {
        "5"@
    } else if d == 6 {
        "6"@
    } else if d == 7 {
        "7"@
    } else if d == 8 {
        "8"@
    } else {
        "9"@
    }
}

/// A number in decimal, without leading zeros.
pub open spec fn decimal_text(n: nat) -> Seq<char>
    decreases n,
{
    if n < 10 {
        digit_text(n)
    } else {
        decimal_text(n / 10) + digit_text(n % 10)
    }
}

pub open spec fn bool_text(b: bool) -> Seq<char> {
    if b {
        "true"@
    } else {
        "false"@
    }
}

/// The three bits, written as a record.
pub open spec fn permissions_text(p: Permissions) -> Seq<char> {
    "Permissions { read: "@ + bool_text(p.read) + ", write: "@ + bool_text(p.write)
        + ", execute: "@ + bool_text(p.execute) + " }"@
}

/// The description of a node, one field to a line. `tags_text` is the list
/// of a file's tags as it is to be shown; a directory shows none.
pub open spec fn info_text(node: NodeView, tags_text: Seq<char>) -> Seq<char> {
    match node {
        NodeView::File(f) => "File Name: "@ + f.name + "\nSize: "@ + decimal_text(f.metadata.size)
            + "\nPermissions: "@ + permissions_text(f.metadata.permissions) + "\nOwner: "@
            + f.metadata.owner + "\nMIME Type: "@ + f.metadata.mime_type + "\nTags: "@ + tags_text,
        NodeView::Directory(d) => "Directory Name: "@ + d.name + "\nSize: "@ + decimal_text(
            d.metadata.size,
        ) + "\nPermissions: "@ + permissions_text(d.metadata.permissions) + "\nOwner: "@
            + d.metadata.owner,
    }
}

fn digit(d: usize) -> (text: &'static str)
    requires
        d < 10,
    ensures
        text@ == digit_text(d as nat),
{
    if d == 0 {
        "0"
    } else if d == 1 {
        "1"
    } else if d == 2 {
        "2"
    } else if d == 3 {
        "3"
    } else if d == 4 {
        "4"
    } else if d == 5 {
        "5"
    } else if d == 6 {
        "6"
    } else if d == 7 {
        "7"
    } else if d == 8 {
        "8"
    } else {
        "9"
    }
}

/// Writes a number in decimal.
pub fn decimal(n: usize) -> (text: String)
    ensures
        text@ == decimal_text(n as nat),
    decreases n,
{
    if n < 10 {
        digit(n).to_owned()
    } else {
        let mut text = decimal(n / 10);
        text.append(digit(n % 10));
        text
    }
}

fn boolean(b: bool) -> (text: &'static str)
    ensures
        text@ == bool_text(b),
{
    if b {
        "true"
    } else {
        "false"
    }
}

/// Writes the three bits as a record.
pub fn permissions_to_string(p: Permissions) -> (text: String)
    ensures
        text@ == permissions_text(p),
{
    let mut text = "Permissions { read: ".to_owned();
    text.append(boolean(p.read));
    text.append(", write: ");
    text.append(boolean(p.write));
    text.append(", execute: ");
    text.append(boolean(p.execute));
    text.append(" }");
    text
}

/// Describes a node, one field to a line: name, size, permissions and
/// owner, and for a file its MIME type and `tags_text`.
pub fn describe(node: &FSNode, tags_text: &str) -> (text: String)
    ensures
        text@ == info_text(node@, tags_text@),
{
    match node {
        FSNode::File(f) => {
            let mut text = "File Name: ".to_owned();
            text.append(f.name.as_str());
            text.append("\nSize: ");
            text.append(decimal(f.metadata.size).as_str());
            text.append("\nPermissions: ");
            text.append(permissions_to_string(f.metadata.permissions).as_str());
            text.append("\nOwner: ");
            text.append(f.metadata.owner.as_str());
            text.append("\nMIME Type: ");
            text.append(f.metadata.mime_type.as_str());
            text.append("\nTags: ");
            text.append(tags_text);
            text
        },
        FSNode::Directory(d) => {
            let mut text = "Directory Name: ".to_owned();
            text.append(d.name.as_str());
            text.append("\nSize: ");
            text.append(decimal(d.metadata.size).as_str());
            text.append("\nPermissions: ");
            text.append(permissions_to_string(d.metadata.permissions).as_str());
            text.append("\nOwner: ");
            text.append(d.metadata.owner.as_str());
            text
        },
    }
}

impl NodeView {
    /// The description of the node, with a file's tags as the standard
    /// library's `Debug` writes them.
    pub open spec fn info(self) -> Seq<char> {
        info_text(self, debug_list_text(self.metadata().tags))
    }
}

impl FSNode {
    /// Describes the node for a reader.
    pub fn info(&self) -> (text: String)
        ensures
            text@ == self@.info(),
    {
        match self {
            FSNode::File(f) => {
                let tags_text = debug_list(&f.metadata.tags);
                describe(self, tags_text.as_str())
            },
            FSNode::Directory(_) => describe(self, ""),
        }
    }
}

} // verus!
