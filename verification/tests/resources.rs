use thermal_network::resources::model::{MaterialId, ModelId};
use thermal_network::resources::FsResources;

#[test]
fn resources_keep_their_base_directory() {
    let res = FsResources::new("res");
    assert_eq!(res.base_dir(), "res");
}

#[test]
fn resources_keep_any_path_as_given() {
    assert_eq!(FsResources::new("").base_dir(), "");
    assert_eq!(FsResources::new("/var/lib/sim/").base_dir(), "/var/lib/sim/");
    assert_eq!(FsResources::new("../a b/ü").base_dir(), "../a b/ü");
}

#[test]
fn model_id_names_its_index() {
    assert_eq!(ModelId::new(0).index(), 0);
    assert_eq!(ModelId::new(7).index(), 7);
    let id = ModelId::new(3);
    let copy = id;
    assert_eq!(id.index(), copy.index());
}

#[test]
fn material_id_names_its_index() {
    assert_eq!(MaterialId::new(0).index(), 0);
    assert_eq!(MaterialId::new(usize::MAX).index(), usize::MAX);
}
