use vstd::prelude::*;
use vstd::string::StringExecFns;

use crate::archive::FileEntry;
use crate::archive::archivable_entries;
use crate::archive::entries_view;
use crate::archive::gunzip_of;
use crate::archive::pack_entries;
use crate::archive::packed_dir;
use crate::archive::unpack_entries;
use crate::archive::untar_of;
use crate::crypto::Identity;
use crate::crypto::PublicKey;
use crate::crypto::age_decrypt_spec;
use crate::crypto::cipher_for;
use crate::crypto::decrypt_bytes;
use crate::crypto::encrypt_bytes;
use crate::errors::BottleError;

verus! {

/// True when `cipher` is the bottled form of the entries `es` for
/// `recipient`: it is bound to that recipient, and what it decrypts to is the
/// compressed archive of exactly `es`.
pub open spec fn bottled_dir(recipient: Seq<char>, cipher: Seq<u8>, es: Seq<(Seq<char>, u8, Seq<u8>)>) -> bool {
    exists|archive: Seq<u8>|
        #[trigger] cipher_for(recipient, cipher, archive) && packed_dir(archive, es)
}

/// EncryptDir: serialize the tree (tar), compress (gzip), then encrypt. The
/// intermediate archive bytes exist in memory only. For every archivable
/// tree this succeeds, and the ciphertext it produces is bound to `pubkey`
/// and unpacks, once decrypted, to exactly the given entries.
pub fn encrypt_dir(pubkey: &PublicKey, entries: &Vec<FileEntry>) -> (r: Result<
    Vec<u8>,
    BottleError,
>)
    ensures
        archivable_entries(entries_view(entries@)) ==> r is Ok && bottled_dir(
            pubkey@,
            r.unwrap()@,
            entries_view(entries@),
        ),
        r is Err ==> r == Err::<Vec<u8>, BottleError>(BottleError::WriteFailed),
{
    let packed = match pack_entries(entries) {
        Ok(p) => p,
        Err(e) => {
            return Err(e);
        },
    };
    let cipher = encrypt_bytes(pubkey, packed.as_slice());
    proof {
        if archivable_entries(entries_view(entries@)) {
            assert(bottled_dir(pubkey@, cipher@, entries_view(entries@))) by {
                assert(cipher_for(pubkey@, cipher@, packed@) && packed_dir(
                    packed@,
                    entries_view(entries@),
                ));
            }
        }
    }
    Ok(cipher)
}

/// DecryptDir: decrypt, decompress (gunzip), then rebuild the tree (untar).
/// Returns exactly the entries the ciphertext holds for this identity; fails
/// with `DecryptionFailed` exactly when age rejects the ciphertext or the
/// identity does not match it, and with `CorruptArchive` exactly when the
/// decrypted bytes are not a well-formed compressed archive.
pub fn decrypt_dir(key: &Identity, encrypted_bytes: &[u8]) -> (r: Result<
    Vec<FileEntry>,
    BottleError,
>)
    ensures
        match age_decrypt_spec(key@, encrypted_bytes@) {
            None => r == Err::<Vec<FileEntry>, BottleError>(BottleError::DecryptionFailed),
            Some(archive) => match gunzip_of(archive) {
                None => r == Err::<Vec<FileEntry>, BottleError>(BottleError::CorruptArchive),
                Some(t) => match untar_of(t) {
                    None => r == Err::<Vec<FileEntry>, BottleError>(BottleError::CorruptArchive),
                    Some(es) => r is Ok && entries_view(r.unwrap()@) == es,
                },
            },
        },
{
    let archive = match decrypt_bytes(key, encrypted_bytes) {
        Ok(p) => p,
        Err(e) => {
            return Err(e);
        },
    };
    unpack_entries(archive.as_slice())
}

/// Directory round-trip law: for every archivable tree, bottling it and
/// unbottling the result with the matching identity succeeds and reproduces
/// exactly the same relative paths, kinds and byte-exact contents.
pub fn encrypt_dir_decrypt_dir_round_trip(key: &Identity, entries: &Vec<FileEntry>) -> (r: Result<
    Vec<FileEntry>,
    BottleError,
>)
    ensures
        archivable_entries(entries_view(entries@)) ==> r is Ok && entries_view(r.unwrap()@)
            == entries_view(entries@),
{
    let pubkey = key.to_public();
    let cipher = match encrypt_dir(&pubkey, entries) {
        Ok(c) => c,
        Err(e) => {
            return Err(e);
        },
    };
    proof {
        if archivable_entries(entries_view(entries@)) {
            assert(bottled_dir(pubkey@, cipher@, entries_view(entries@)));
            let archive = choose|archive: Seq<u8>|
                #[trigger] cipher_for(pubkey@, cipher@, archive) && packed_dir(
                    archive,
                    entries_view(entries@),
                );
            assert(age_decrypt_spec(key@, cipher@) == Some(archive));
            let t = choose|t: Seq<u8>|
                gunzip_of(archive) == Some(t) && #[trigger] untar_of(t) == Some(
                    entries_view(entries@),
                );
            assert(untar_of(t) == Some(entries_view(entries@)));
        }
    }
    decrypt_dir(key, cipher.as_slice())
}

/// Overwrite protection: when the output path exists and overwriting was not
/// forced, nothing may be written and the conflicting path is reported;
/// otherwise the write may proceed.
pub fn authorize_write(output_exists: bool, force_overwrite: bool, output_name: &str) -> (r: Result<
    (),
    BottleError,
>)
    ensures
        output_exists && !force_overwrite ==> (r matches Err(e) && (e matches
            BottleError::WouldOverwrite(p) && p@ == output_name@)),
        !(output_exists && !force_overwrite) ==> r is Ok,
{
    if output_exists && !force_overwrite {
        Err(BottleError::WouldOverwrite(String::from_str(output_name)))
    } else {
        Ok(())
    }
}

} // verus!
