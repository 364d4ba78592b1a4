use lib::declaration::RegulationIdentity;
use lib::model::{
    direct_frontend_options_digest, direct_inputs_digest, RoadEditingProvenance, RoadEditingProvenanceKind,
    DIRECT_GENERATOR_BUILD_ID,
};

#[test]
fn direct_provenance_uses_frozen_build_and_digest_values() {
    let provenance = RoadEditingProvenance::direct("editor save").expect("direct provenance");

    assert_eq!(provenance.kind(), RoadEditingProvenanceKind::Direct);
    assert_eq!(provenance.generator_build_id(), DIRECT_GENERATOR_BUILD_ID);
    assert_eq!(provenance.parameters_and_inputs_digest(), &direct_inputs_digest());
    assert_eq!(provenance.frontend_options_digest(), &direct_frontend_options_digest());
    assert_eq!(provenance.random_seed(), None);
}

#[test]
fn access_regulation_provenance_accepts_bounded_unicode_text() {
    let regulation = RegulationIdentity::try_new("中国", "二〇二六")
        .expect("unicode regulation")
        .with_source("法规库")
        .expect("unicode source");

    assert_eq!(regulation.jurisdiction(), "中国");
    assert_eq!(regulation.version(), "二〇二六");
    assert_eq!(regulation.source(), Some("法规库"));
}
