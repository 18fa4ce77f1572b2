use lumencache::protocol::codec::LumenCacheCodec;
use lumencache::protocol::encoder::{
    ActivateSceneCommand, AssignIdCommand, ClearSceneCommand, ClearScenesCommand, Commands,
    DeactivateSceneCommand, GetConfigCommand, GetScenesCommand, GetValueCommand, SetSceneCommand,
    SetValueCommand,
};

fn encoded(command: Commands) -> Vec<u8> {
    let mut buf: Vec<u8> = Vec::new();
    LumenCacheCodec::encode(command, &mut buf);
    buf
}

#[test]
fn test_set_value() {
    let mut buf: Vec<u8> = Vec::new();
    LumenCacheCodec::encode(
        Commands::SetValue(SetValueCommand { id: 13, value: 37 }),
        &mut buf,
    );
    assert_eq!(buf, b"[13,37]".to_vec());
}

#[test]
fn test_get_value() {
    let mut buf: Vec<u8> = Vec::new();
    LumenCacheCodec::encode(Commands::GetValue(GetValueCommand { id: 13 }), &mut buf);
    assert_eq!(buf, b"[13,256]".to_vec());
}

#[test]
fn test_get_config() {
    let mut buf: Vec<u8> = Vec::new();
    LumenCacheCodec::encode(Commands::GetConfig(GetConfigCommand { id: 13 }), &mut buf);
    assert_eq!(buf, b"[13,258]".to_vec());
}

#[test]
fn test_set_scene_packs_zero_padded_groups() {
    let command = Commands::SetScene(SetSceneCommand {
        id: 13,
        scene: 2,
        ramp_duration: 3,
        level: 7,
    });
    assert_eq!(encoded(command), b"[13,102003007]".to_vec());
    let wide = Commands::SetScene(SetSceneCommand {
        id: 1,
        scene: 64,
        ramp_duration: 100,
        level: 255,
    });
    assert_eq!(encoded(wide), b"[1,164100255]".to_vec());
}

#[test]
fn test_clear_scene() {
    assert_eq!(
        encoded(Commands::ClearScene(ClearSceneCommand { id: 13, scene: 2 })),
        b"[13,702]".to_vec()
    );
}

#[test]
fn test_clear_scenes() {
    assert_eq!(
        encoded(Commands::ClearScenes(ClearScenesCommand { id: 13 })),
        b"[13,700]".to_vec()
    );
}

#[test]
fn test_get_scenes() {
    assert_eq!(
        encoded(Commands::GetScenes(GetScenesCommand { id: 13 })),
        b"[13,10000]".to_vec()
    );
}

#[test]
fn test_activate_scene_folds_address() {
    assert_eq!(
        encoded(Commands::ActivateScene(ActivateSceneCommand { id: 13 })),
        b"[254,613]".to_vec()
    );
}

#[test]
fn test_deactivate_scene_folds_address() {
    assert_eq!(
        encoded(Commands::DeactivateScene(DeactivateSceneCommand { id: 13 })),
        b"[254,913]".to_vec()
    );
}

#[test]
fn test_hail() {
    assert_eq!(encoded(Commands::Hail), b"[253,0]".to_vec());
}

#[test]
fn test_assign_id_folds_address() {
    let command = Commands::AssignId(AssignIdCommand {
        id: 13,
        serial_number: String::from("0123456789ABCDEF0123"),
    });
    assert_eq!(encoded(command), b"[100013,0123456789ABCDEF0123]".to_vec());
}

#[test]
fn test_round_trip_value_echo() {
    // The hardware echoes a value frame for a value write; decoding that
    // echo yields the very address and value the command carried.
    let mut wire: Vec<u8> = Vec::new();
    wire.push(b'(');
    let mut body = encoded(Commands::SetValue(SetValueCommand { id: 47, value: 200 }));
    body.remove(0);
    body.pop();
    wire.extend_from_slice(&body);
    wire.push(b')');
    let decoded = LumenCacheCodec::parse(&mut wire);
    assert_eq!(
        decoded,
        Some(lumencache::protocol::decoder::Response::Value(
            lumencache::protocol::decoder::Value { id: 47, value: 200 }
        ))
    );
}
