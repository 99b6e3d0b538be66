//! The planet-assembly resource catalog.

use travelmux::assembly::{Distribution, Resources};

#[test]
fn resources_are_laid_out_by_version() {
    let resources = Resources::new("v1.36", "data");
    assert_eq!(resources.download_dir(), "data/download/v1.36");
    assert_eq!(resources.generated_dir(), "data/generated/v1.36");
    assert_eq!(resources.planet_pbf.name(), "planet-v1.36.osm.pbf");
    assert_eq!(
        resources.planet_pbf.local_path(),
        "data/download/v1.36/planet-v1.36.osm.pbf"
    );
    assert_eq!(resources.admin_osc.name(), "admin-v1.36.osc.gz");
    assert_eq!(
        resources.final_planet_pbf.local_path(),
        "data/generated/v1.36/final-planet-v1.36.osm.pbf"
    );
}

#[test]
fn assembly_jobs_chain_the_artifacts() {
    let dist = Distribution::new("v1.36".to_string(), "data");
    let merge = dist.add_buildings();
    assert_eq!(merge.output.name(), "merged-planet-and-ml-buildings-v1.36.osm.pbf");
    assert_eq!(merge.inputs.len(), 2);
    assert_eq!(merge.inputs[0].name(), "planet-v1.36.osm.pbf");
    assert_eq!(merge.inputs[1].name(), "ml-buildings-v1.36.osm.pbf");

    let apply = dist.add_admin();
    assert_eq!(apply.output.name(), "final-planet-v1.36.osm.pbf");
    assert_eq!(apply.inputs.len(), 2);
    assert_eq!(apply.inputs[1].name(), "admin-v1.36.osc.gz");
}
