//! The certificates and the key of the server, out of PEM files.

use rustls_pki_types::PrivateKeyDer;
use vstd::prelude::*;

verus! {

broadcast use vstd::string::group_string_axioms;

/// A private key: how it is written down, and its bytes.
#[derive(Debug, Clone, PartialEq, Eq)]
pub enum Key {
    Pkcs1(Vec<u8>),
    Sec1(Vec<u8>),
    Pkcs8(Vec<u8>),
}

/// A key as its bytes.
pub enum KeyView {
    Pkcs1(Seq<u8>),
    Sec1(Seq<u8>),
    Pkcs8(Seq<u8>),
}

impl View for Key {
    type V = KeyView;

    open spec fn view(&self) -> KeyView {
        match *self {
            Key::Pkcs1(der) => KeyView::Pkcs1(der@),
            Key::Sec1(der) => KeyView::Sec1(der@),
            Key::Pkcs8(der) => KeyView::Pkcs8(der@),
        }
    }
}

/// What each of these keys is.
pub open spec fn key_views(keys: Seq<Key>) -> Seq<KeyView> {
    keys.map_values(|key: Key| key@)
}

/// The bytes of each of these certificates.
pub open spec fn certificate_views(certs: Seq<Vec<u8>>) -> Seq<Seq<u8>> {
    certs.map_values(|der: Vec<u8>| der@)
}

/// What a section came to: the bytes of a certificate, or the text of an error.
pub open spec fn section_view(section: Result<Vec<u8>, String>) -> Result<Seq<u8>, Seq<char>> {
    match section {
        Ok(der) => Ok(der@),
        Err(message) => Err(message@),
    }
}

/// What each of these sections came to.
pub open spec fn section_views(sections: Seq<Result<Vec<u8>, String>>) -> Seq<
    Result<Seq<u8>, Seq<char>>,
> {
    sections.map_values(|section: Result<Vec<u8>, String>| section_view(section))
}

/// The certificates of a PEM file one after the other, and the errors between them.
pub uninterp spec fn certificate_sections(pem: Seq<u8>) -> Seq<Result<Seq<u8>, Seq<char>>>;

/// `rustls_pemfile::certs` on the bytes of a file: each certificate and each error that it
/// yields, in their order, an error as its text.
#[verifier::external_body]
fn sections(pem: &[u8]) -> (list: Vec<Result<Vec<u8>, String>>)
    ensures
        section_views(list@) == certificate_sections(pem@),
{
    let mut rest = pem;
    rustls_pemfile::certs(&mut rest)
        .map(|section| section.map(|der| der.to_vec()).map_err(|error| error.to_string()))
        .collect()
}

/// The certificates that these sections came to; the first error, where there is one.
pub open spec fn all_certificates(sections: Seq<Result<Seq<u8>, Seq<char>>>) -> Result<
    Seq<Seq<u8>>,
    Seq<char>,
>
    decreases sections.len(),
{
    if sections.len() == 0 {
        Ok(Seq::empty())
    } else {
        match (all_certificates(sections.drop_last()), sections.last()) {
            (Err(message), _) => Err(message),
            (Ok(_), Err(message)) => Err(message),
            (Ok(certs), Ok(der)) => Ok(certs.push(der)),
        }
    }
}

/// The certificates of a PEM file, or the text of the first error in it.
pub open spec fn certificates_in(pem: Seq<u8>) -> Result<Seq<Seq<u8>>, Seq<char>> {
    all_certificates(certificate_sections(pem))
}

/// The certificates that sections came to. One error spoils them all.
pub fn collect_certificates(sections: Vec<Result<Vec<u8>, String>>) -> (certs: Result<
    Vec<Vec<u8>>,
    String,
>)
    ensures
        match all_certificates(section_views(sections@)) {
            Ok(list) => certs matches Ok(certs) && certificate_views(certs@) == list,
            Err(text) => certs matches Err(message) && message@ == text,
        },
{
    let ghost views = section_views(sections@);
    let mut certs: Vec<Vec<u8>> = Vec::new();
    proof {
        assert(certificate_views(certs@) =~= Seq::empty());
    }
    for i in 0..sections.len()
        invariant
            views == section_views(sections@),
            all_certificates(views.take(i as int)) == Ok::<Seq<Seq<u8>>, Seq<char>>(
                certificate_views(certs@),
            ),
    {
        proof {
            assert(views.take(i + 1).drop_last() =~= views.take(i as int));
            assert(views.take(i + 1).last() == section_view(sections@[i as int]));
        }
        match &sections[i] {
            Ok(der) => {
                let ghost before = certs@;
                certs.push(der.clone());
                proof {
                    assert(certificate_views(certs@) =~= certificate_views(before).push(der@));
                }
            },
            Err(message) => {
                proof {
                    lemma_first_error(views, i + 1);
                }
                return Err(message.clone());
            },
        }
    }
    proof {
        assert(views.take(sections.len() as int) =~= views);
    }
    Ok(certs)
}

/// What follows an error does not matter.
proof fn lemma_first_error(sections: Seq<Result<Seq<u8>, Seq<char>>>, count: int)
    requires
        0 <= count <= sections.len(),
        all_certificates(sections.take(count)) is Err,
    ensures
        all_certificates(sections) == all_certificates(sections.take(count)),
    decreases sections.len(),
{
    if count < sections.len() {
        assert(sections.drop_last().take(count) =~= sections.take(count));
        lemma_first_error(sections.drop_last(), count);
    } else {
        assert(sections.take(count) =~= sections);
    }
}

/// The certificates of a PEM file. A malformed section anywhere in the file is an error.
pub fn load_certs(pem: &[u8]) -> (certs: Result<Vec<Vec<u8>>, String>)
    ensures
        match certificates_in(pem@) {
            Ok(list) => certs matches Ok(certs) && certificate_views(certs@) == list,
            Err(text) => certs matches Err(message) && message@ == text,
        },
{
    collect_certificates(sections(pem))
}

/// The first private key of a PEM file and the bytes after its section, nothing where there
/// is none, or the text of an error that comes before.
pub uninterp spec fn key_after(pem: Seq<u8>) -> Result<Option<(KeyView, Seq<u8>)>, Seq<char>>;

/// `rustls_pemfile::private_key` on the bytes of a file: the first key, of whatever kind, and
/// the bytes that were not read; an error as its text. The section of a key is never empty,
/// so fewer bytes are left. The call has three kinds of keys and no others; the last arm
/// would tell of a fourth.
#[verifier::external_body]
fn next_key<'a>(pem: &'a [u8]) -> (found: Result<Option<(Key, &'a [u8])>, String>)
    ensures
        match found {
            Ok(Some((key, rest))) => key_after(pem@) == Ok::<
                Option<(KeyView, Seq<u8>)>,
                Seq<char>,
            >(Some((key@, rest@))) && rest@.len() < pem@.len(),
            Ok(None) => key_after(pem@) == Ok::<Option<(KeyView, Seq<u8>)>, Seq<char>>(None),
            Err(message) => key_after(pem@) == Err::<Option<(KeyView, Seq<u8>)>, Seq<char>>(
                message@,
            ),
        },
{
    let mut rest = pem;
    match rustls_pemfile::private_key(&mut rest) {
        Ok(Some(PrivateKeyDer::Pkcs1(key))) => {
            Ok(Some((Key::Pkcs1(key.secret_pkcs1_der().to_vec()), rest)))
        }
        Ok(Some(PrivateKeyDer::Sec1(key))) => {
            Ok(Some((Key::Sec1(key.secret_sec1_der().to_vec()), rest)))
        }
        Ok(Some(PrivateKeyDer::Pkcs8(key))) => {
            Ok(Some((Key::Pkcs8(key.secret_pkcs8_der().to_vec()), rest)))
        }
        Ok(None) => Ok(None),
        Err(error) => Err(error.to_string()),
        Ok(Some(_)) => Err(String::from("unknown kind of private key")),
    }
}

/// All private keys of a PEM file, or the text of the first error in it.
pub open spec fn keys_in(pem: Seq<u8>) -> Result<Seq<KeyView>, Seq<char>>
    decreases pem.len(),
{
    match key_after(pem) {
        Err(message) => Err(message),
        Ok(None) => Ok(Seq::empty()),
        Ok(Some((key, rest))) => if rest.len() < pem.len() {
            match keys_in(rest) {
                Ok(keys) => Ok(seq![key] + keys),
                Err(message) => Err(message),
            }
        } else {
            Ok(seq![key])
        },
    }
}

/// Reads all keys, to the end of the file.
fn read_keys(pem: &[u8]) -> (keys: Result<Vec<Key>, String>)
    ensures
        match keys_in(pem@) {
            Ok(list) => keys matches Ok(keys) && key_views(keys@) == list,
            Err(text) => keys matches Err(message) && message@ == text,
        },
{
    let mut keys: Vec<Key> = Vec::new();
    let mut rest: &[u8] = pem;
    proof {
        assert(key_views(keys@) =~= Seq::empty());
        if keys_in(pem@) is Ok {
            assert(key_views(keys@) + keys_in(pem@)->Ok_0 =~= keys_in(pem@)->Ok_0);
        }
    }
    loop
        invariant
            match keys_in(rest@) {
                Ok(list) => keys_in(pem@) == Ok::<Seq<KeyView>, Seq<char>>(
                    key_views(keys@) + list,
                ),
                Err(text) => keys_in(pem@) == Err::<Seq<KeyView>, Seq<char>>(text),
            },
        decreases rest@.len(),
    {
        match next_key(rest) {
            Err(message) => {
                return Err(message);
            },
            Ok(None) => {
                proof {
                    assert(key_views(keys@) + Seq::<KeyView>::empty() =~= key_views(keys@));
                }
                return Ok(keys);
            },
            Ok(Some((key, left))) => {
                let ghost before = keys@;
                let ghost first = key@;
                keys.push(key);
                rest = left;
                proof {
                    assert(key_views(keys@) =~= key_views(before).push(first));
                    if let Ok(list) = keys_in(left@) {
                        assert(key_views(before) + (seq![first] + list) =~= key_views(keys@)
                            + list);
                    }
                }
            },
        }
    }
}

/// The key to serve with: the first of those in the file at `path`.
pub fn first_key(keys: Vec<Key>, path: &str) -> (key: Result<Key, String>)
    ensures
        if keys@.len() > 0 {
            key matches Ok(key) && key@ == keys@[0]@
        } else {
            key matches Err(message) && message@ == "No private key found in "@ + path@
        },
{
    let mut keys = keys;
    if keys.len() > 0 {
        Ok(keys.remove(0))
    } else {
        let mut message = "No private key found in ".to_owned();
        message.append(path);
        Err(message)
    }
}

/// The first private key of the PEM file at `path`. A malformed section anywhere in the file
/// is an error, and so is a file without a key.
pub fn load_key(pem: &[u8], path: &str) -> (key: Result<Key, String>)
    ensures
        match keys_in(pem@) {
            Ok(keys) => if keys.len() > 0 {
                key matches Ok(key) && key@ == keys[0]
            } else {
                key matches Err(message) && message@ == "No private key found in "@ + path@
            },
            Err(text) => key matches Err(message) && message@ == text,
        },
{
    match read_keys(pem) {
        Ok(keys) => first_key(keys, path),
        Err(message) => Err(message),
    }
}

/// Without an error every section is a certificate, in its place; with one, the first error is
/// what comes of the file, whatever stands before and after it.
pub proof fn law_one_error_spoils_the_file(sections: Seq<Result<Seq<u8>, Seq<char>>>, first: int)
    ensures
        (forall|i: int| 0 <= i < sections.len() ==> (#[trigger] sections[i]) is Ok) ==> {
            &&& all_certificates(sections) matches Ok(certs) && certs.len() == sections.len()
                && forall|i: int|
                0 <= i < sections.len() ==> #[trigger] certs[i] == sections[i]->Ok_0
        },
        0 <= first < sections.len() && sections[first] is Err && (forall|i: int|
            0 <= i < first ==> (#[trigger] sections[i]) is Ok) ==> all_certificates(sections)
            == Err::<Seq<Seq<u8>>, Seq<char>>(sections[first]->Err_0),
    decreases sections.len(),
{
    if sections.len() > 0 {
        let shorter = sections.drop_last();
        assert(forall|i: int| 0 <= i < shorter.len() ==> #[trigger] sections[i] == shorter[i]);
        law_one_error_spoils_the_file(shorter, first);
    }
}

/// What comes of a file is what comes of all its sections; a file in which no key is found has
/// none, and one with an error before any key has that error.
pub proof fn law_files_are_read_whole(pem: Seq<u8>)
    ensures
        certificates_in(pem) == all_certificates(certificate_sections(pem)),
        key_after(pem) matches Ok(None) ==> (keys_in(pem) matches Ok(keys) && keys.len() == 0),
        key_after(pem) matches Err(text) ==> keys_in(pem) == Err::<Seq<KeyView>, Seq<char>>(text),
{
}

/// Every key of a file counts, in its place, up to the end; and an error anywhere is what comes
/// of the file, even after a key.
pub proof fn law_keys_are_read_to_the_end(pem: Seq<u8>, key: KeyView, rest: Seq<u8>)
    requires
        key_after(pem) == Ok::<Option<(KeyView, Seq<u8>)>, Seq<char>>(Some((key, rest))),
        rest.len() < pem.len(),
    ensures
        keys_in(rest) matches Ok(others) ==> (keys_in(pem) matches Ok(keys) && keys.first() == key
            && keys.drop_first() == others),
        keys_in(rest) matches Err(text) ==> keys_in(pem) == Err::<Seq<KeyView>, Seq<char>>(text),
{
    if let Ok(others) = keys_in(rest) {
        assert((seq![key] + others).drop_first() =~= others);
    }
}

} // verus!
