//! The supporting data types: materials, the name map, format version
//! rules, and renderer resource records.

use cal3d::corebone::CalCoreBone;
use cal3d::corematerial::{CalCoreMaterial, Color, MaterialMap};
use cal3d::coremodel::{CalCoreModel, CoreError};
use cal3d::coreskeleton::CalCoreSkeleton;
use cal3d::fileformat::{usesAnimationCompression, versionHasCompressionFlag, LoaderError};
use cal3d::graphics::{CharacterRenderer, GLSLProgram, Sprite, SpriteRenderer};
use cal3d::graphics::{TextRenderer, WorldGLSLProgram};
use cal3d::scalar::FP_ONE;
use cal3d::submesh::{CalMorphTargetType, Face};
use cal3d::vector::{CalQuaternion, CalVector};

#[test]
fn version_rules_for_compression() {
    assert!(versionHasCompressionFlag(1300));
    assert!(versionHasCompressionFlag(1400));
    assert!(!versionHasCompressionFlag(1299));
    assert!(usesAnimationCompression(1300));
    assert!(!usesAnimationCompression(699));
    // the loader errors are plain values
    assert!(matches!(LoaderError::MagicError, LoaderError::MagicError));
    assert!(matches!(LoaderError::VersionError, LoaderError::VersionError));
}

#[test]
fn materials_hold_their_colors_and_maps() {
    let map = MaterialMap::new("skin.tga".to_owned(), "diffuse".to_owned(), 0);
    let material = CalCoreMaterial::new(
        Color::new(10, 20, 30, 255),
        Color::new(40, 50, 60, 255),
        Color::new(0, 0, 0, 255),
        500_000,
        vec![map],
    );
    assert_eq!(material.m_diffuseColor, Color::new(40, 50, 60, 255));
    assert_eq!(material.getMaps().len(), 1);
    assert_eq!(material.getMaps()[0].strFilename, "skin.tga");
    assert_eq!(material.m_shininess, 500_000);
}

#[test]
fn material_threads_map_sets_to_materials() {
    let mut core_model = CalCoreModel::new(CalCoreSkeleton::new());
    let id = core_model.addCoreMaterial(CalCoreMaterial::new(
        Color::new(0, 0, 0, 255),
        Color::new(0, 0, 0, 255),
        Color::new(0, 0, 0, 255),
        0,
        Vec::new(),
    ));
    assert_eq!(id, 0);
    assert!(core_model.createCoreMaterialThread(7));
    assert!(core_model.setCoreMaterialId(7, 3, id));
    assert_eq!(core_model.getCoreMaterialId(7, 3), Some(id));
    assert_eq!(core_model.getCoreMaterialId(7, 4), None);
    // an unknown thread is rejected
    assert!(!core_model.setCoreMaterialId(9, 3, id));
    assert_eq!(core_model.getCoreMaterialId(9, 3), None);
}

#[test]
fn bone_names_map_to_their_ids() {
    let mut skeleton = CalCoreSkeleton::new();
    let bone = CalCoreBone::new(
        "spine".to_owned(),
        -1,
        CalVector::new(0, 0, 0),
        CalQuaternion::new(FP_ONE, 0, 0, 0),
        CalVector::new(0, 0, 0),
        CalQuaternion::new(FP_ONE, 0, 0, 0),
    );
    skeleton.addCoreBone(bone);
    // remapping to a valid id succeeds, an id outside the skeleton fails
    assert!(skeleton.mapCoreBoneName(0, "torso").is_ok());
    let rejected = skeleton.mapCoreBoneName(5, "nowhere");
    assert!(matches!(rejected, Err(CoreError::OtherError(_))));
}

#[test]
fn faces_and_morph_target_kinds_are_plain_data() {
    let face = Face::new([3, 4, 5]);
    assert_eq!(face.vertexId, [3, 4, 5]);
    assert_eq!(
        CalMorphTargetType::CalMorphTargetTypeAdditive,
        CalMorphTargetType::CalMorphTargetTypeAdditive
    );
}

#[test]
fn renderer_records_start_empty() {
    let program = GLSLProgram::new();
    assert_eq!(program.id(), 0);
    assert_eq!(program.vertex_source, "");
    let world = WorldGLSLProgram::new();
    assert_eq!(world.id(), 0);
    let sprite = Sprite::new();
    assert_eq!((sprite.w, sprite.h), (0, 0));
    let sprites = SpriteRenderer::new();
    assert_eq!(sprites.vertex_pos_handle, 0);
    let text = TextRenderer::new();
    assert_eq!(text.text_texture, 0);
    let character = CharacterRenderer::new();
    assert_eq!(character.vbo, [0, 0]);
}
