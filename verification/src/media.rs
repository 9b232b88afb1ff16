//! Content types, inferred from the extension of a document's name.

use vstd::prelude::*;

verus! {

/// The content type of HTML documents.
pub open spec fn html_content_type() -> Seq<char> {
    "text/html; charset=utf-8"@
}

/// The content types of the documents that every site is made of, by
/// extension, as Rocket registers them.
pub open spec fn listed_content_type(extension: Seq<char>) -> Option<Seq<char>> {
    if extension == "html"@ {
        Some(html_content_type())
    } else if extension == "js"@ {
        Some("text/javascript"@)
    } else if extension == "css"@ {
        Some("text/css; charset=utf-8"@)
    } else if extension == "png"@ {
        Some("image/png"@)
    } else {
        None
    }
}

/// The content type that Rocket registers for an extension that is not listed
/// above, written out as the value of a `Content-Type` header, or `None`
/// where it registers none.
pub uninterp spec fn unlisted_content_type(extension: Seq<char>) -> Option<Seq<char>>;

/// The content type that Rocket registers for an extension.
pub open spec fn registered_content_type(extension: Seq<char>) -> Option<Seq<char>> {
    match listed_content_type(extension) {
        Some(content_type) => Some(content_type),
        None => unlisted_content_type(extension),
    }
}

/// The text of an optional string.
pub open spec fn text_of(found: Option<String>) -> Option<Seq<char>> {
    match found {
        Some(text) => Some(text@),
        None => None,
    }
}

/// Looks an extension up with `rocket::http::ContentType::from_extension` and
/// writes the content type found as text.
///
/// Trusted: for `html`, `js`, `css` and `png` the result is the one listed;
/// for any other extension it depends on the extension alone, which is all
/// that the contract claims by naming it [`unlisted_content_type`].
#[verifier::external_body]
fn lookup_content_type(extension: &str) -> (found: Option<String>)
    ensures
        listed_content_type(extension@) is Some ==> text_of(found) == listed_content_type(
            extension@,
        ),
        listed_content_type(extension@) is None ==> text_of(found) == unlisted_content_type(
            extension@,
        ),
{
    match rocket::http::ContentType::from_extension(extension) {
        Some(content_type) => Some(content_type.to_string()),
        None => None,
    }
}

/// The content type sent for documents whose extension is not registered.
pub open spec fn binary_content_type() -> Seq<char> {
    "application/octet-stream"@
}

/// A content type that was found, or else the generic binary type.
pub open spec fn or_binary(found: Option<Seq<char>>) -> Seq<char> {
    match found {
        Some(content_type) => content_type,
        None => binary_content_type(),
    }
}

/// The content type to send given what is registered for a document's
/// extension: the registered one, or the generic binary type.
pub fn content_type_or_binary(found: Option<String>) -> (content_type: String)
    ensures
        content_type@ == or_binary(text_of(found)),
{
    match found {
        Some(text) => text,
        None => "application/octet-stream".to_owned(),
    }
}

/// The position of the last `.` in a name, or -1 where it holds none.
pub open spec fn last_dot(name: Seq<char>) -> int
    decreases name.len(),
{
    if name.len() == 0 {
        -1
    } else if name.last() == '.' {
        name.len() - 1
    } else {
        last_dot(name.drop_last())
    }
}

/// The extension of a file name: what follows its last `.`, unless the name
/// holds no `.` or only begins with one.
pub open spec fn extension_of(name: Seq<char>) -> Option<Seq<char>> {
    if last_dot(name) > 0 {
        Some(name.skip(last_dot(name) + 1))
    } else {
        None
    }
}

/// The last `.` of a name is a `.`, and none follows it.
pub proof fn last_dot_is_last(name: Seq<char>)
    ensures
        -1 <= last_dot(name) < name.len(),
        last_dot(name) >= 0 ==> name[last_dot(name)] == '.',
        forall|i: int| last_dot(name) < i < name.len() ==> name[i] != '.',
    decreases name.len(),
{
    if name.len() > 0 && name.last() != '.' {
        let shorter = name.drop_last();
        last_dot_is_last(shorter);
        assert forall|i: int| last_dot(name) < i < name.len() implies name[i] != '.' by {
            if i < shorter.len() {
                assert(shorter[i] == name[i]);
            }
        }
    }
}

/// A name written as a stem, a `.` and an extension has that extension,
/// provided the stem is not empty and the extension holds no `.` itself.
pub proof fn extension_of_written(stem: Seq<char>, extension: Seq<char>)
    requires
        stem.len() > 0,
        !extension.contains('.'),
    ensures
        extension_of(stem.push('.') + extension) == Some(extension),
{
    let name = stem.push('.') + extension;
    let dot = stem.len() as int;
    last_dot_is_last(name);
    assert(name[dot] == '.');
    assert(last_dot(name) == dot);
}

/// The extension of a file name.
pub fn extension(name: &str) -> (found: Option<String>)
    ensures
        text_of(found) == extension_of(name@),
{
    let total: usize = name.unicode_len();
    let mut at: usize = 0;
    let mut dot: Option<usize> = None;
    for c in it: name.chars()
        invariant
            it.seq() == name@,
            total == name@.len(),
            at == it.index(),
            at <= total,
            match dot {
                Some(position) => position == last_dot(name@.take(at as int)),
                None => last_dot(name@.take(at as int)) == -1,
            },
    {
        proof {
            assert(name@.take(at + 1).drop_last() =~= name@.take(at as int));
            last_dot_is_last(name@.take(at as int));
        }
        if c == '.' {
            dot = Some(at);
        }
        at = at + 1;
    }
    proof {
        assert(name@.take(at as int) =~= name@);
        last_dot_is_last(name@);
    }
    match dot {
        Some(position) if position > 0 => {
            Some(name.substring_char(position + 1, total).to_owned())
        },
        _ => None,
    }
}

/// The content type sent with a document of the given name: the one
/// registered for its extension, or the generic binary type.
pub open spec fn content_type_of(name: Seq<char>) -> Seq<char> {
    match extension_of(name) {
        Some(extension) => or_binary(registered_content_type(extension)),
        None => binary_content_type(),
    }
}

/// The content type to send with a document of the given name.
pub fn content_type(name: &str) -> (content_type: String)
    ensures
        content_type@ == content_type_of(name@),
{
    match extension(name) {
        Some(extension) => content_type_or_binary(lookup_content_type(extension.as_str())),
        None => content_type_or_binary(None),
    }
}

} // verus!
