//! The resource catalog of the planet-file assembly tool: where each
//! downloaded and generated artifact of one release version lives, and the
//! merge/apply-changes jobs that combine them.  Only the catalog logic is
//! here; downloading and running the jobs is I/O and stays outside the
//! library.

use vstd::prelude::*;

verus! {

/// One artifact: its file name and where it lives locally.
#[derive(Debug, PartialEq, Eq)]
pub struct Resource {
    pub name: String,
    pub local_path: String,
}

impl Resource {
    pub fn new(name: String, local_path: String) -> (r: Self)
        ensures
            r.name == name,
            r.local_path == local_path,
    {
        Self { name, local_path }
    }

    pub fn local_path(&self) -> (r: &str)
        ensures
            r@ == self.local_path@,
    {
        self.local_path.as_str()
    }

    pub fn name(&self) -> (r: &str)
        ensures
            r@ == self.name@,
    {
        self.name.as_str()
    }
}

/// A path under a directory.
pub open spec fn spec_join_path(dir: Seq<char>, name: Seq<char>) -> Seq<char> {
    dir + "/"@ + name
}

fn join_path(dir: &str, name: &str) -> (r: String)
    ensures
        r@ == spec_join_path(dir@, name@),
{
    let mut s = String::from_str(dir);
    s.append("/");
    s.append(name);
    s
}

pub struct ResourceBuilder {
    pub download_dir: String,
    pub generated_dir: String,
}

impl ResourceBuilder {
    pub fn new(version: &str, data_root: &str) -> (r: Self)
        ensures
            r.download_dir@ == spec_join_path(spec_join_path(data_root@, "download"@), version@),
            r.generated_dir@ == spec_join_path(spec_join_path(data_root@, "generated"@), version@),
    {
        let downloads = join_path(data_root, "download");
        let generated = join_path(data_root, "generated");
        Self {
            download_dir: join_path(downloads.as_str(), version),
            generated_dir: join_path(generated.as_str(), version),
        }
    }

    pub fn downloadable(&self, name: String) -> (r: Resource)
        ensures
            r.name == name,
            r.local_path@ == spec_join_path(self.download_dir@, name@),
    {
        let path = join_path(self.download_dir.as_str(), name.as_str());
        Resource::new(name, path)
    }

    pub fn generated(&self, name: String) -> (r: Resource)
        ensures
            r.name == name,
            r.local_path@ == spec_join_path(self.generated_dir@, name@),
    {
        let path = join_path(self.generated_dir.as_str(), name.as_str());
        Resource::new(name, path)
    }
}

/// A release-version file name: prefix, version, extension.
pub open spec fn spec_versioned_name(prefix: Seq<char>, version: Seq<char>, ext: Seq<char>)
    -> Seq<char> {
    prefix + version + ext
}

fn versioned_name(prefix: &str, version: &str, ext: &str) -> (r: String)
    ensures
        r@ == spec_versioned_name(prefix@, version@, ext@),
{
    let mut s = String::from_str(prefix);
    s.append(version);
    s.append(ext);
    s
}

/// The artifacts of one release version.
pub struct Resources {
    pub resource_builder: ResourceBuilder,
    pub planet_pbf: Resource,
    pub buildings_pbf: Resource,
    pub admin_osc: Resource,
    pub merged_planet_and_ml_buildings_pbf: Resource,
    pub final_planet_pbf: Resource,
}

impl Resources {
    /// Lays the catalog out: the three upstream downloads under the
    /// download directory, the two assembled planets under the generated
    /// directory.
    pub fn new(version: &str, data_root: &str) -> (r: Self)
        ensures
            r.planet_pbf.name@ == spec_versioned_name("planet-"@, version@, ".osm.pbf"@),
            r.admin_osc.name@ == spec_versioned_name("admin-"@, version@, ".osc.gz"@),
            r.buildings_pbf.name@ == spec_versioned_name("ml-buildings-"@, version@, ".osm.pbf"@),
            r.merged_planet_and_ml_buildings_pbf.name@ == spec_versioned_name(
                "merged-planet-and-ml-buildings-"@,
                version@,
                ".osm.pbf"@,
            ),
            r.final_planet_pbf.name@ == spec_versioned_name(
                "final-planet-"@,
                version@,
                ".osm.pbf"@,
            ),
            r.planet_pbf.local_path@ == spec_join_path(
                spec_join_path(spec_join_path(data_root@, "download"@), version@),
                r.planet_pbf.name@,
            ),
            r.final_planet_pbf.local_path@ == spec_join_path(
                spec_join_path(spec_join_path(data_root@, "generated"@), version@),
                r.final_planet_pbf.name@,
            ),
    {
        let resource_builder = ResourceBuilder::new(version, data_root);
        let planet_pbf = resource_builder.downloadable(
            versioned_name("planet-", version, ".osm.pbf"),
        );
        let admin_osc = resource_builder.downloadable(
            versioned_name("admin-", version, ".osc.gz"),
        );
        let buildings_pbf = resource_builder.downloadable(
            versioned_name("ml-buildings-", version, ".osm.pbf"),
        );
        let merged = resource_builder.generated(
            versioned_name("merged-planet-and-ml-buildings-", version, ".osm.pbf"),
        );
        let final_planet = resource_builder.generated(
            versioned_name("final-planet-", version, ".osm.pbf"),
        );
        Self {
            resource_builder,
            planet_pbf,
            buildings_pbf,
            admin_osc,
            merged_planet_and_ml_buildings_pbf: merged,
            final_planet_pbf: final_planet,
        }
    }

    pub fn download_dir(&self) -> (r: &str)
        ensures
            r@ == self.resource_builder.download_dir@,
    {
        self.resource_builder.download_dir.as_str()
    }

    pub fn generated_dir(&self) -> (r: &str)
        ensures
            r@ == self.resource_builder.generated_dir@,
    {
        self.resource_builder.generated_dir.as_str()
    }
}

/// A merge job: one output assembled from at least two inputs.
#[derive(Debug)]
pub struct Merge<'a> {
    pub output: &'a Resource,
    pub inputs: Vec<&'a Resource>,
}

impl<'a> Merge<'a> {
    pub fn output(output: &'a Resource) -> (r: Self)
        ensures
            r.output == output,
            r.inputs@.len() == 0,
    {
        Self { output, inputs: Vec::new() }
    }

    pub fn input(self, input: &'a Resource) -> (r: Self)
        ensures
            r.output == self.output,
            r.inputs@ == self.inputs@.push(input),
    {
        let mut s = self;
        s.inputs.push(input);
        s
    }
}

/// An apply-changes job: a change file folded into a planet file.
pub struct ApplyChanges<'a> {
    pub output: &'a Resource,
    pub inputs: Vec<&'a Resource>,
}

impl<'a> ApplyChanges<'a> {
    pub fn output(output: &'a Resource) -> (r: Self)
        ensures
            r.output == output,
            r.inputs@.len() == 0,
    {
        Self { output, inputs: Vec::new() }
    }

    pub fn input(self, input: &'a Resource) -> (r: Self)
        ensures
            r.output == self.output,
            r.inputs@ == self.inputs@.push(input),
    {
        let mut s = self;
        s.inputs.push(input);
        s
    }
}

/// One release's assembly: which jobs build the final planet file.
pub struct Distribution {
    pub version: String,
    pub resources: Resources,
}

impl Distribution {
    pub fn new(version: String, output_root: &str) -> (r: Self)
        ensures
            r.version == version,
    {
        let resources = Resources::new(version.as_str(), output_root);
        Self { version, resources }
    }

    /// The merge job that folds the machine-learned buildings into the
    /// planet file.
    pub fn add_buildings(&self) -> (r: Merge<'_>)
        ensures
            r.output == &self.resources.merged_planet_and_ml_buildings_pbf,
            r.inputs@.len() == 2,
            r.inputs@[0] == &self.resources.planet_pbf,
            r.inputs@[1] == &self.resources.buildings_pbf,
    {
        Merge::output(&self.resources.merged_planet_and_ml_buildings_pbf).input(
            &self.resources.planet_pbf,
        ).input(&self.resources.buildings_pbf)
    }

    /// The apply-changes job that folds the administrative updates into
    /// the merged planet file.
    pub fn add_admin(&self) -> (r: ApplyChanges<'_>)
        ensures
            r.output == &self.resources.final_planet_pbf,
            r.inputs@.len() == 2,
            r.inputs@[0] == &self.resources.merged_planet_and_ml_buildings_pbf,
            r.inputs@[1] == &self.resources.admin_osc,
    {
        ApplyChanges::output(&self.resources.final_planet_pbf).input(
            &self.resources.merged_planet_and_ml_buildings_pbf,
        ).input(&self.resources.admin_osc)
    }
}

} // verus!
