//! Reviews, builds, tests and applies the commits of a git range with the help of a model.
//!
//! This crate holds what is decided and computed; asking git, the model and the mailing list is
//! left to its caller. A patch is indexed by [`diff_index`], and the places that findings point at
//! are held against it by [`anchors`]. Findings are compared and merged in [`findings`] and taken
//! back in [`challenges`]. The review of a commit runs through the stages of [`review`], with the
//! look upstream of [`upstream`]; its report is made in [`commit`]. A whole run is planned and
//! reported in [`run`], and validated, rendered and summarized in [`validation`], [`lkml`] and
//! [`summary`]. Commits are applied in [`apply`].
//!
//! Values are those of [`json`] and texts are handled by [`text`]. What holds of a function's
//! results, and across functions, is proved beside them and in the modules of laws: for texts and
//! values in [`text_laws`] and [`json_laws`], for patches in [`patch_laws`], [`reading_laws`] and
//! [`diff_laws`], for findings in [`finding_laws`], for the review of a commit in [`review_laws`],
//! [`report_laws`] and [`pipeline_laws`], and for a run in [`run_laws`], [`usage_laws`],
//! [`validation_laws`] and [`mail_laws`].

pub mod anchors;
pub mod apply;
pub mod challenges;
pub mod commit;
pub mod diff_index;
pub mod diff_laws;
pub mod finding_laws;
pub mod findings;
pub mod json;
pub mod json_laws;
pub mod lkml;
pub mod mail_laws;
pub mod options;
pub mod patch_laws;
pub mod pipeline_laws;
pub mod reading_laws;
pub mod report_laws;
pub mod review;
pub mod review_laws;
pub mod run;
pub mod run_laws;
pub mod summary;
pub mod text;
pub mod text_laws;
pub mod upstream;
pub mod usage;
pub mod usage_laws;
pub mod validation;
pub mod validation_laws;
