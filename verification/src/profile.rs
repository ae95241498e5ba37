//! The per-profile export plans: what is written for one user and for one
//! school or building, given their fetched records. The driver performs the
//! operations in order.

use vstd::prelude::*;

use crate::error::{ErrorV, ExportError, Field};
use crate::json::{spec_get_string, Json};
use crate::text::{i64_to_string, spec_dec_signed};
use crate::tree::{ops_view, path_push, path_view, DirPath, FsOp, OpV};

verus! {

/// One user's export, under `users/<id>`: the fresh directory, the profile
/// record as `user_info.json`, and the picture at the profile's
/// `picture_url` as `user_image.png`, whose absence is an error.
pub open spec fn spec_user_export_ops(
    users_dir: Seq<Seq<char>>,
    user_id: int,
    profile: Json,
) -> Result<Seq<OpV>, ErrorV> {
    match spec_get_string(profile, "picture_url"@) {
        None => Err(ErrorV::MissingField(Field::PictureUrl)),
        Some(url) => {
            let dir = users_dir.push(spec_dec_signed(user_id));
            Ok(
                seq![
                    OpV::CreateDir { path: dir },
                    OpV::WriteRecord { path: dir.push("user_info.json"@), record: profile },
                    OpV::Download { path: dir.push("user_image.png"@), url },
                ],
            )
        },
    }
}

/// Plans one user's export, as given by [`spec_user_export_ops`].
pub fn user_export_ops(users_dir: &DirPath, user_id: i64, profile: Json) -> (r: Result<
    Vec<FsOp>,
    ExportError,
>)
    ensures
        match r {
            Ok(ops) => spec_user_export_ops(path_view(users_dir@), user_id as int, profile)
                == Ok::<Seq<OpV>, ErrorV>(ops_view(ops@)),
            Err(e) => spec_user_export_ops(path_view(users_dir@), user_id as int, profile)
                == Err::<Seq<OpV>, ErrorV>(e@),
        },
{
    let url = match profile.get_string("picture_url") {
        Some(u) => u,
        None => {
            return Err(ExportError::MissingField(Field::PictureUrl));
        },
    };
    let dir = path_push(users_dir, i64_to_string(user_id));
    let ghost dirv = path_view(dir@);
    let mut ops: Vec<FsOp> = Vec::new();
    ops.push(FsOp::CreateDir { path: crate::tree::clone_path(&dir) });
    ops.push(
        FsOp::WriteRecord {
            path: path_push(&dir, String::from_str("user_info.json")),
            record: profile,
        },
    );
    ops.push(FsOp::Download { path: path_push(&dir, String::from_str("user_image.png")), url });
    proof {
        assert(ops_view(ops@) =~= seq![
            OpV::CreateDir { path: dirv },
            OpV::WriteRecord { path: dirv.push("user_info.json"@), record: profile },
            OpV::Download {
                path: dirv.push("user_image.png"@),
                url: spec_get_string(profile, "picture_url"@).unwrap(),
            },
        ]);
    }
    Ok(ops)
}

/// One school's or building's export, into its existing directory: the
/// record as `info.json` and the picture at its `picture_url` as
/// `picture.png`, whose absence is an error.
pub open spec fn spec_school_export_ops(dir: Seq<Seq<char>>, info: Json) -> Result<
    Seq<OpV>,
    ErrorV,
> {
    match spec_get_string(info, "picture_url"@) {
        None => Err(ErrorV::MissingField(Field::PictureUrl)),
        Some(url) => Ok(
            seq![
                OpV::WriteRecord { path: dir.push("info.json"@), record: info },
                OpV::Download { path: dir.push("picture.png"@), url },
            ],
        ),
    }
}

/// Plans one school's or building's export, as given by [`spec_school_export_ops`].
pub fn school_export_ops(dir: &DirPath, info: Json) -> (r: Result<Vec<FsOp>, ExportError>)
    ensures
        match r {
            Ok(ops) => spec_school_export_ops(path_view(dir@), info) == Ok::<Seq<OpV>, ErrorV>(
                ops_view(ops@),
            ),
            Err(e) => spec_school_export_ops(path_view(dir@), info) == Err::<Seq<OpV>, ErrorV>(
                e@,
            ),
        },
{
    let url = match info.get_string("picture_url") {
        Some(u) => u,
        None => {
            return Err(ExportError::MissingField(Field::PictureUrl));
        },
    };
    let ghost dirv = path_view(dir@);
    let mut ops: Vec<FsOp> = Vec::new();
    ops.push(
        FsOp::WriteRecord { path: path_push(dir, String::from_str("info.json")), record: info },
    );
    ops.push(FsOp::Download { path: path_push(dir, String::from_str("picture.png")), url });
    proof {
        assert(ops_view(ops@) =~= seq![
            OpV::WriteRecord { path: dirv.push("info.json"@), record: info },
            OpV::Download {
                path: dirv.push("picture.png"@),
                url: spec_get_string(info, "picture_url"@).unwrap(),
            },
        ]);
    }
    Ok(ops)
}

} // verus!
