//! Reading what Asterisk sends: status lines, variable dumps, messages.
use blazing_agi::agiparse::{
    AGIMessage, AGIParseError, AGIRequestType, AGIStatusGeneric, AGIVariableDump,
};
use std::collections::HashMap;

#[test]
fn agi_variable_dump_w_custom_args() {
    let message = "agi_network_script: agi.sh \n\
        agi_request: /tmp/agi.sh \n\
        agi_channel: SIP/marcelog-e00d2760 \n\
        agi_language: ar \n\
        agi_type: SIP \n\
        agi_uniqueid: 1297542965.8 \n\
        agi_version: 1.6.0.9 \n\
        agi_callerid: marcelog \n\
        agi_calleridname: marcelog@mg \n\
        agi_callingpres: 0 \n\
        agi_callingani2: 0 \n\
        agi_callington: 0 \n\
        agi_callingtns: 0 \n\
        agi_dnid: 667 \n\
        agi_rdnis: unknown \n\
        agi_context: default \n\
        agi_extension: 667 \n\
        agi_priority: 2 \n\
        agi_enhanced: 0.0 \n\
        agi_accountcode: \n\
        agi_threadid: 1104922960 \n\
        agi_arg_1: arg1\n\
        agi_arg_2: arg2\n\
        agi_arg_3: arg3\n\n\0\0\0";
    let vardump = message.parse::<AGIVariableDump>().unwrap();
    let mut arghashmap = HashMap::new();
    arghashmap.insert(1u8, "arg1".to_owned());
    arghashmap.insert(2u8, "arg2".to_owned());
    arghashmap.insert(3u8, "arg3".to_owned());
    assert_eq!(
        vardump,
        AGIVariableDump {
            network_script: "agi.sh".to_owned(),
            request: AGIRequestType::File("/tmp/agi.sh".to_owned()),
            channel: "SIP/marcelog-e00d2760".to_owned(),
            language: "ar".to_owned(),
            channel_type: "SIP".to_owned(),
            uniqueid: "1297542965.8".to_owned(),
            version: "1.6.0.9".to_owned(),
            callerid: "marcelog".to_owned(),
            calleridname: "marcelog@mg".to_owned(),
            callingpres: "0".to_owned(),
            callingani2: "0".to_owned(),
            callington: "0".to_owned(),
            callingtns: "0".to_owned(),
            dnid: "667".to_owned(),
            rdnis: "unknown".to_owned(),
            context: "default".to_owned(),
            extension: "667".to_owned(),
            priority: 2,
            enhanced: false,
            accountcode: "".to_owned(),
            threadid: 1104922960,
            custom_args: arghashmap,
        }
    );
}

#[test]
fn agi_variable_dump_wo_custom_args() {
    let message = "agi_network_script: agi.sh \n\
        agi_request: /tmp/agi.sh \n\
        agi_channel: SIP/marcelog-e00d2760 \n\
        agi_language: ar \n\
        agi_type: SIP \n\
        agi_uniqueid: 1297542965.8 \n\
        agi_version: 1.6.0.9 \n\
        agi_callerid: marcelog \n\
        agi_calleridname: marcelog@mg \n\
        agi_callingpres: 0 \n\
        agi_callingani2: 0 \n\
        agi_callington: 0 \n\
        agi_callingtns: 0 \n\
        agi_dnid: 667 \n\
        agi_rdnis: unknown \n\
        agi_context: default \n\
        agi_extension: 667 \n\
        agi_priority: 2 \n\
        agi_enhanced: 0.0 \n\
        agi_accountcode: \n\
        agi_threadid: 1104922960\n\n\0\0";
    let vardump = message.parse::<AGIVariableDump>().unwrap();
    assert_eq!(
        vardump,
        AGIVariableDump {
            network_script: "agi.sh".to_owned(),
            request: AGIRequestType::File("/tmp/agi.sh".to_owned()),
            channel: "SIP/marcelog-e00d2760".to_owned(),
            language: "ar".to_owned(),
            channel_type: "SIP".to_owned(),
            uniqueid: "1297542965.8".to_owned(),
            version: "1.6.0.9".to_owned(),
            callerid: "marcelog".to_owned(),
            calleridname: "marcelog@mg".to_owned(),
            callingpres: "0".to_owned(),
            callingani2: "0".to_owned(),
            callington: "0".to_owned(),
            callingtns: "0".to_owned(),
            dnid: "667".to_owned(),
            rdnis: "unknown".to_owned(),
            context: "default".to_owned(),
            extension: "667".to_owned(),
            priority: 2,
            enhanced: false,
            accountcode: "".to_owned(),
            threadid: 1104922960,
            custom_args: HashMap::<u8, String>::new(),
        }
    );
}

#[test]
fn agi_variable_dump_duplicate_custom_arg() {
    let message = "agi_network_script: agi.sh \n\
        agi_request: /tmp/agi.sh \n\
        agi_channel: SIP/marcelog-e00d2760 \n\
        agi_language: ar \n\
        agi_type: SIP \n\
        agi_uniqueid: 1297542965.8 \n\
        agi_version: 1.6.0.9 \n\
        agi_callerid: marcelog \n\
        agi_calleridname: marcelog@mg \n\
        agi_rdnis: unknown \n\
        agi_callingpres: 0 \n\
        agi_callingani2: 0 \n\
        agi_callington: 0 \n\
        agi_callingtns: 0 \n\
        agi_dnid: 667 \n\
        agi_context: default \n\
        agi_extension: 667 \n\
        agi_priority: 2 \n\
        agi_enhanced: 0.0 \n\
        agi_accountcode: \n\
        agi_threadid: 1104922960 \n\
        agi_arg_1: 1234 \n\
        agi_arg_1: 567\n\n\0\0";
    assert!(message.parse::<AGIVariableDump>().is_err());
}

#[test]
fn agi_variable_dump_missing_arg() {
    let message = "agi_network_script: agi.sh \n\
        agi_request: /tmp/agi.sh \n\
        agi_channel: SIP/marcelog-e00d2760 \n\
        agi_language: ar \n\
        agi_type: SIP \n\
        agi_uniqueid: 1297542965.8 \n\
        agi_version: 1.6.0.9 \n\
        agi_callerid: marcelog \n\
        agi_calleridname: marcelog@mg \n\
        agi_callingpres: 0 \n\
        agi_callingani2: 0 \n\
        agi_callington: 0 \n\
        agi_callingtns: 0 \n\
        agi_dnid: 667 \n\
        agi_context: default \n\
        agi_extension: 667 \n\
        agi_priority: 2 \n\
        agi_enhanced: 0.0 \n\
        agi_accountcode: \n\
        agi_threadid: 1104922960\n\n\0\0";
    assert!(message.parse::<AGIVariableDump>().is_err());
}

#[test]
fn agi_status_with_op_data() {
    let line = "200 result=1 done\n";
    assert_eq!(
        line.parse::<AGIStatusGeneric>(),
        Ok(AGIStatusGeneric::Okay(
            "1".to_owned(),
            Some("done".to_owned())
        ))
    );
}

#[test]
fn agi_status_wo_op_data() {
    let line = "200 result=1 \n";
    assert_eq!(
        line.parse::<AGIStatusGeneric>(),
        Ok(AGIStatusGeneric::Okay("1".to_owned(), None))
    );
}

#[test]
fn agi_status_unparsable_code() {
    let line = "2f00 result=1 \n";
    assert!(line.parse::<AGIStatusGeneric>().is_err());
}

#[test]
fn agi_status_unparsable_result() {
    let line = "200 result:1 \n";
    assert!(line.parse::<AGIStatusGeneric>().is_err());
}

#[test]
fn agi_status_line_empty() {
    let line = " \n";
    assert!(line.parse::<AGIStatusGeneric>().is_err());
}

#[test]
fn agi_status_no_result() {
    let line = "404 \n";
    assert!(line.parse::<AGIStatusGeneric>().is_err());
}

#[test]
fn agi_message_status() {
    let message = "200 result=1 done \ncript: lolli\nagi_request: ged√∂ns\n";
    assert_eq!(
        message.parse::<AGIMessage>(),
        Ok(AGIMessage::Status(AGIStatusGeneric::Okay(
            "1".to_owned(),
            Some("done".to_owned())
        )))
    );
}

#[test]
fn agi_message_dump() {
    let message = "\
        agi_network_script: agi.sh \n\
        agi_request: /tmp/agi.sh \n\
        agi_channel: SIP/marcelog-e00d2760 \n\
        agi_language: ar \n\
        agi_type: SIP \n\
        agi_uniqueid: 1297542965.8 \n\
        agi_version: 1.6.0.9 \n\
        agi_callerid: marcelog \n\
        agi_calleridname: marcelog@mg \n\
        agi_callingpres: 0 \n\
        agi_callingani2: 0 \n\
        agi_callington: 0 \n\
        agi_callingtns: 0 \n\
        agi_dnid: 667 \n\
        agi_rdnis: unknown \n\
        agi_context: default \n\
        agi_extension: 667 \n\
        agi_priority: 2 \n\
        agi_enhanced: 0.0 \n\
        agi_accountcode: \n\
        agi_threadid: 1104922960 \n\n\0\0";
    let vardump = message.parse::<AGIMessage>().unwrap();
    assert_eq!(
        vardump,
        AGIMessage::VariableDump(AGIVariableDump {
            network_script: "agi.sh".to_owned(),
            request: AGIRequestType::File("/tmp/agi.sh".to_owned()),
            channel: "SIP/marcelog-e00d2760".to_owned(),
            language: "ar".to_owned(),
            channel_type: "SIP".to_owned(),
            uniqueid: "1297542965.8".to_owned(),
            version: "1.6.0.9".to_owned(),
            callerid: "marcelog".to_owned(),
            calleridname: "marcelog@mg".to_owned(),
            callingpres: "0".to_owned(),
            callingani2: "0".to_owned(),
            callington: "0".to_owned(),
            callingtns: "0".to_owned(),
            dnid: "667".to_owned(),
            rdnis: "unknown".to_owned(),
            context: "default".to_owned(),
            extension: "667".to_owned(),
            priority: 2,
            enhanced: false,
            accountcode: "".to_owned(),
            threadid: 1104922960,
            custom_args: HashMap::<u8, String>::new(),
        })
    );
}

#[test]
fn agi_message_garbage() {
    let message = "some stuff \n and some more stuff";
    assert!(message.parse::<AGIMessage>().is_err());
}

#[test]
fn agi_message_network_start() {
    let message = "agi_network: yes";
    assert_eq!(message.parse::<AGIMessage>(), Ok(AGIMessage::NetworkStart));
}
