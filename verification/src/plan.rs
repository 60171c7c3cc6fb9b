//! Walking the nodes of an asset: which entities the nodes ask for, and
//! which nodes cannot be placed.

use crate::asset::{Asset, AssetNode, Projection, TransformKind};
use crate::entity::EntityId;
use crate::error::{first_error, lemma_first_error_at, lemma_first_error_none, Error, Feature};
use vstd::prelude::*;

verus! {

/// An entity that a node asks for.
#[derive(Debug, Clone, Copy, PartialEq, Eq, Structural)]
pub enum Placement {
    /// An instance of primitive `primitive` of mesh `mesh`, placed by `node`.
    Instance { node: usize, mesh: usize, primitive: usize },
    /// Camera `camera`, placed by `node`.
    Camera { node: usize, camera: usize },
}

/// Why the node cannot be placed, if it cannot. A node that refers to a mesh
/// is a mesh node whatever else it refers to; a camera must be a complete
/// perspective camera; the transform is judged last. A node that refers to
/// neither is never at fault.
pub open spec fn node_error(node: AssetNode, asset: Asset) -> Option<Error> {
    match node.mesh {
        Some(mesh) => if mesh >= asset.meshes@.len() {
            Some(Error::MalformedAsset)
        } else if node.transform == TransformKind::Matrix {
            Some(Error::Unimplemented(Feature::MatrixTransform))
        } else {
            None
        },
        None => match node.camera {
            Some(camera) => if camera >= asset.cameras@.len() {
                Some(Error::MalformedAsset)
            } else {
                match asset.cameras@[camera as int] {
                    Projection::Orthographic => Some(
                        Error::Unimplemented(Feature::OrthographicCamera),
                    ),
                    Projection::Perspective { has_aspect_ratio, has_zfar } => if !has_aspect_ratio
                        || !has_zfar {
                        Some(Error::IncompleteCamera)
                    } else if node.transform == TransformKind::Matrix {
                        Some(Error::Unimplemented(Feature::MatrixTransform))
                    } else {
                        None
                    },
                }
            },
            None => None,
        },
    }
}

/// What each node has to object, in node order.
pub open spec fn node_errors(asset: Asset) -> Seq<Option<Error>> {
    Seq::new(asset.nodes@.len(), |n: int| node_error(asset.nodes@[n], asset))
}

/// The entities that node `n` asks for: one instance per primitive of its
/// mesh, or its camera, or nothing.
pub open spec fn node_placements(asset: Asset, n: int) -> Seq<Placement> {
    let node = asset.nodes@[n];
    match node.mesh {
        Some(mesh) => Seq::new(
            asset.meshes@[mesh as int].primitives@.len(),
            |p: int| Placement::Instance { node: n as usize, mesh, primitive: p as usize },
        ),
        None => match node.camera {
            Some(camera) => seq![Placement::Camera { node: n as usize, camera }],
            None => Seq::empty(),
        },
    }
}

/// The entities that the first `upto` nodes ask for, in node order.
pub open spec fn placements(asset: Asset, upto: nat) -> Seq<Placement>
    decreases upto,
{
    if upto == 0 {
        Seq::empty()
    } else {
        placements(asset, (upto - 1) as nat) + node_placements(asset, upto - 1)
    }
}

/// Walks the nodes in order and lists the entities they ask for. The first
/// node that cannot be placed ends the walk.
pub fn plan_nodes(asset: &Asset) -> (plan: Result<Vec<Placement>, Error>)
    ensures
        match plan {
            Ok(plan) => {
                &&& first_error(node_errors(*asset)).is_none()
                &&& plan@ == placements(*asset, asset.nodes@.len())
            },
            Err(error) => first_error(node_errors(*asset)) == Some(error),
        },
{
    let ghost steps = node_errors(*asset);
    let mut plan: Vec<Placement> = Vec::new();
    let mut n: usize = 0;
    while n < asset.nodes.len()
        invariant
            n <= asset.nodes.len(),
            steps == node_errors(*asset),
            forall|j: int| 0 <= j < n ==> steps[j].is_none(),
            plan@ == placements(*asset, n as nat),
        decreases asset.nodes.len() - n,
    {
        let node = asset.nodes[n];
        if let Some(mesh) = node.mesh {
            if mesh >= asset.meshes.len() {
                proof {
                    lemma_first_error_at(steps, n as int);
                }
                return Err(Error::MalformedAsset);
            }
            if let TransformKind::Matrix = node.transform {
                proof {
                    lemma_first_error_at(steps, n as int);
                }
                return Err(Error::Unimplemented(Feature::MatrixTransform));
            }
            let count = asset.meshes[mesh].primitives.len();
            let ghost before = plan@;
            let mut p: usize = 0;
            while p < count
                invariant
                    p <= count,
                    n < asset.nodes.len(),
                    mesh < asset.meshes.len(),
                    count == asset.meshes@[mesh as int].primitives@.len(),
                    asset.nodes@[n as int].mesh == Some(mesh),
                    plan@ == before + node_placements(*asset, n as int).take(p as int),
                decreases count - p,
            {
                plan.push(Placement::Instance { node: n, mesh, primitive: p });
                assert(plan@ =~= before + node_placements(*asset, n as int).take(p + 1));
                p += 1;
            }
            assert(node_placements(*asset, n as int).take(count as int) == node_placements(
                *asset,
                n as int,
            ));
        } else if let Some(camera) = node.camera {
            if camera >= asset.cameras.len() {
                proof {
                    lemma_first_error_at(steps, n as int);
                }
                return Err(Error::MalformedAsset);
            }
            match asset.cameras[camera] {
                Projection::Orthographic => {
                    proof {
                        lemma_first_error_at(steps, n as int);
                    }
                    return Err(Error::Unimplemented(Feature::OrthographicCamera));
                },
                Projection::Perspective { has_aspect_ratio, has_zfar } => {
                    if !has_aspect_ratio || !has_zfar {
                        proof {
                            lemma_first_error_at(steps, n as int);
                        }
                        return Err(Error::IncompleteCamera);
                    }
                },
            }
            if let TransformKind::Matrix = node.transform {
                proof {
                    lemma_first_error_at(steps, n as int);
                }
                return Err(Error::Unimplemented(Feature::MatrixTransform));
            }
            let ghost before = plan@;
            plan.push(Placement::Camera { node: n, camera });
            assert(plan@ =~= before + node_placements(*asset, n as int));
        } else {
            assert(plan@ =~= plan@ + node_placements(*asset, n as int));
        }
        n += 1;
    }
    proof {
        lemma_first_error_none(steps);
    }
    Ok(plan)
}

/// Every instance of the plan names a primitive that has an identifier.
pub open spec fn plan_in_range(plan: Seq<Placement>, resources: Seq<Vec<EntityId>>) -> bool {
    forall|i: int|
        0 <= i < plan.len() ==> match #[trigger] plan[i] {
            Placement::Instance { mesh, primitive, .. } => mesh < resources.len() && primitive
                < resources[mesh as int]@.len(),
            Placement::Camera { .. } => true,
        }
}

/// The placements of nodes that have nothing to object name existing
/// primitives.
pub proof fn lemma_placements_in_range(asset: Asset, upto: nat, resources: Seq<Vec<EntityId>>)
    requires
        upto <= asset.nodes@.len(),
        forall|n: int| 0 <= n < upto ==> node_error(asset.nodes@[n], asset).is_none(),
        resources.len() == asset.meshes@.len(),
        forall|m: int|
            0 <= m < resources.len() ==> (#[trigger] resources[m])@.len()
                == asset.meshes@[m].primitives@.len(),
    ensures
        plan_in_range(placements(asset, upto), resources),
    decreases upto,
{
    if upto > 0 {
        lemma_placements_in_range(asset, (upto - 1) as nat, resources);
        let earlier = placements(asset, (upto - 1) as nat);
        let here = node_placements(asset, upto - 1);
        let all = placements(asset, upto);
        assert(node_error(asset.nodes@[upto - 1], asset).is_none());
        assert forall|i: int| 0 <= i < all.len() implies match #[trigger] all[i] {
            Placement::Instance { mesh, primitive, .. } => mesh < resources.len() && primitive
                < resources[mesh as int]@.len(),
            Placement::Camera { .. } => true,
        } by {
            if i < earlier.len() {
                assert(all[i] == earlier[i]);
            } else {
                assert(all[i] == here[i - earlier.len()]);
            }
        }
    }
}

} // verus!
