//! Language models: rows and protocol messages.
use crate::entity::model::Model as EntityModel;
use crate::proto::ProtoModel;
use crate::text::clone_opt_string;
use vstd::prelude::*;

verus! {

/// The message for a model row: the same four fields.
pub open spec fn spec_model_to_proto(e: EntityModel) -> ProtoModel {
    ProtoModel {
        name: e.name,
        display_name: e.display_name,
        description: e.description,
        provider_name: e.provider_name,
    }
}

/// The row for a model message: the same four fields.
pub open spec fn spec_model_to_entity(p: ProtoModel) -> EntityModel {
    EntityModel {
        name: p.name,
        display_name: p.display_name,
        description: p.description,
        provider_name: p.provider_name,
    }
}

impl From<EntityModel> for ProtoModel {
    fn from(entity: EntityModel) -> ProtoModel {
        ProtoModel {
            name: entity.name,
            display_name: entity.display_name,
            description: entity.description,
            provider_name: entity.provider_name,
        }
    }
}

impl vstd::std_specs::convert::FromSpecImpl<EntityModel> for ProtoModel {
    open spec fn obeys_from_spec() -> bool {
        true
    }

    open spec fn from_spec(v: EntityModel) -> ProtoModel {
        spec_model_to_proto(v)
    }
}

impl From<ProtoModel> for EntityModel {
    fn from(proto: ProtoModel) -> EntityModel {
        EntityModel {
            name: proto.name,
            display_name: proto.display_name,
            description: proto.description,
            provider_name: proto.provider_name,
        }
    }
}

impl vstd::std_specs::convert::FromSpecImpl<ProtoModel> for EntityModel {
    open spec fn obeys_from_spec() -> bool {
        true
    }

    open spec fn from_spec(v: ProtoModel) -> EntityModel {
        spec_model_to_entity(v)
    }
}

impl<'a> From<&'a EntityModel> for ProtoModel {
    fn from(entity: &'a EntityModel) -> ProtoModel {
        ProtoModel {
            name: entity.name.clone(),
            display_name: entity.display_name.clone(),
            description: clone_opt_string(&entity.description),
            provider_name: entity.provider_name.clone(),
        }
    }
}

impl<'a> vstd::std_specs::convert::FromSpecImpl<&'a EntityModel> for ProtoModel {
    open spec fn obeys_from_spec() -> bool {
        true
    }

    open spec fn from_spec(v: &'a EntityModel) -> ProtoModel {
        spec_model_to_proto(*v)
    }
}

impl<'a> From<&'a ProtoModel> for EntityModel {
    fn from(proto: &'a ProtoModel) -> EntityModel {
        EntityModel {
            name: proto.name.clone(),
            display_name: proto.display_name.clone(),
            description: clone_opt_string(&proto.description),
            provider_name: proto.provider_name.clone(),
        }
    }
}

impl<'a> vstd::std_specs::convert::FromSpecImpl<&'a ProtoModel> for EntityModel {
    open spec fn obeys_from_spec() -> bool {
        true
    }

    open spec fn from_spec(v: &'a ProtoModel) -> EntityModel {
        spec_model_to_entity(*v)
    }
}

/// Converts a model row into its message.
pub fn model_entity_to_proto(entity: &EntityModel) -> (r: ProtoModel)
    ensures
        r == spec_model_to_proto(*entity),
{
    ProtoModel::from(entity)
}

/// Converts a model message into its row.
pub fn model_proto_to_entity(proto: &ProtoModel) -> (r: EntityModel)
    ensures
        r == spec_model_to_entity(*proto),
{
    EntityModel::from(proto)
}

/// Converts model rows into their messages, in order.
pub fn model_entities_to_proto(entities: &[EntityModel]) -> (r: Vec<ProtoModel>)
    ensures
        r@ == entities@.map_values(|e: EntityModel| spec_model_to_proto(e)),
{
    let mut out: Vec<ProtoModel> = Vec::new();
    let mut i: usize = 0;
    while i < entities.len()
        invariant
            i <= entities@.len(),
            out@ == entities@.take(i as int).map_values(|e: EntityModel| spec_model_to_proto(e)),
        decreases entities@.len() - i,
    {
        out.push(model_entity_to_proto(&entities[i]));
        i = i + 1;
        proof {
            assert(out@ =~= entities@.take(i as int).map_values(
                |e: EntityModel| spec_model_to_proto(e),
            ));
        }
    }
    proof {
        assert(entities@.take(entities@.len() as int) =~= entities@);
    }
    out
}

/// A model row survives the trip through its message, and a message the trip
/// through its row.
pub proof fn lemma_model_roundtrip(e: EntityModel, p: ProtoModel)
    ensures
        spec_model_to_entity(spec_model_to_proto(e)) == e,
        spec_model_to_proto(spec_model_to_entity(p)) == p,
{
}

} // verus!
