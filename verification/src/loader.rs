//! The specification loader: turns the bundled specification resource,
//! together with an optional caller-supplied metadata document, into the
//! immutable protocol definition.
//!
//! The bundled document is parsed by the outside structured-document parser;
//! everything the loader decides about the parsed tree — the name-to-type
//! table, domain resolution, the packing of consecutive boolean arguments
//! into flag groups, the splitting of constants into plain values and soft
//! and hard errors, the metadata merge, and the well-formedness checks — is
//! verified here.

use vstd::prelude::*;
use vstd::string::StringExecFns;

use crate::document::{assoc_lookup, json_get_spec, or_null, JsonModel};
use crate::json::{
    content_of, json_array, json_bool, json_get, json_null, json_of, json_parse, json_str,
    json_u64,
};
use crate::records::{
    AMQPArgument, AMQPClass, AMQPConstant, AMQPDomain, AMQPFlagArgument, AMQPMethod,
    AMQPProperty, AMQProtocolDefinition, AMQPValueArgument, ArgModel, ArgumentModel, ClassModel,
    ConstantClass, ConstantModel, DefinitionModel, DomainModel, FlagModel, MethodModel,
    PropertyModel, ValueArgModel, argument_names, arguments_names, class_model, constant_model,
    definition_model, domain_model, flag_model, lemma_definition_wf_model, method_model,
    model_of_argument, names_unique, property_model, value_arg_model,
};
use crate::types::AMQPType;

verus! {

/// The bundled specification resource: the AMQP 0.9.1 specification as
/// implemented by RabbitMQ, fixed and versioned with the library, held in
/// sections and read as one document.
/// The bundled specification resource: its header fields.
pub const BUNDLED_HEAD: &'static str = "{\n\
  \"name\": \"AMQP\",\n\
  \"major_version\": 0,\n\
  \"minor_version\": 9,\n\
  \"revision\": 1,\n\
  \"port\": 5672,\n\
  \"copyright\": \"Copyright (C) 2008-2020 VMware, Inc. or its affiliates.\",\n";

/// The bundled specification resource: its domain list.
pub const BUNDLED_DOMAINS: &'static str = "  \"domains\": [\n\
    {\"name\": \"class-id\", \"type\": \"short\"},\n\
    {\"name\": \"consumer-tag\", \"type\": \"shortstr\"},\n\
    {\"name\": \"delivery-tag\", \"type\": \"longlong\"},\n\
    {\"name\": \"exchange-name\", \"type\": \"shortstr\"},\n\
    {\"name\": \"method-id\", \"type\": \"short\"},\n\
    {\"name\": \"no-ack\", \"type\": \"bit\"},\n\
    {\"name\": \"no-local\", \"type\": \"bit\"},\n\
    {\"name\": \"no-wait\", \"type\": \"bit\"},\n\
    {\"name\": \"path\", \"type\": \"shortstr\"},\n\
    {\"name\": \"peer-properties\", \"type\": \"table\"},\n\
    {\"name\": \"queue-name\", \"type\": \"shortstr\"},\n\
    {\"name\": \"redelivered\", \"type\": \"bit\"},\n\
    {\"name\": \"message-count\", \"type\": \"long\"},\n\
    {\"name\": \"reply-code\", \"type\": \"short\"},\n\
    {\"name\": \"reply-text\", \"type\": \"shortstr\"}\n\
  ],\n";

/// The bundled specification resource: its constant list.
pub const BUNDLED_CONSTANTS: &'static str = "  \"constants\": [\n\
    {\"name\": \"frame-method\", \"value\": 1},\n\
    {\"name\": \"frame-header\", \"value\": 2},\n\
    {\"name\": \"frame-body\", \"value\": 3},\n\
    {\"name\": \"frame-heartbeat\", \"value\": 8},\n\
    {\"name\": \"frame-min-size\", \"value\": 4096},\n\
    {\"name\": \"frame-end\", \"value\": 206, \"type\": \"octet\"},\n\
    {\"name\": \"reply-success\", \"value\": 200},\n\
    {\"name\": \"content-too-large\", \"value\": 311, \"class\": \"soft-error\"},\n\
    {\"name\": \"no-route\", \"value\": 312, \"class\": \"soft-error\"},\n\
    {\"name\": \"no-consumers\", \"value\": 313, \"class\": \"soft-error\"},\n\
    {\"name\": \"access-refused\", \"value\": 403, \"class\": \"soft-error\"},\n\
    {\"name\": \"not-found\", \"value\": 404, \"class\": \"soft-error\"},\n\
    {\"name\": \"resource-locked\", \"value\": 405, \"class\": \"soft-error\"},\n\
    {\"name\": \"precondition-failed\", \"value\": 406, \"class\": \"soft-error\"},\n\
    {\"name\": \"connection-forced\", \"value\": 320, \"class\": \"hard-error\"},\n\
    {\"name\": \"invalid-path\", \"value\": 402, \"class\": \"hard-error\"},\n\
    {\"name\": \"frame-error\", \"value\": 501, \"class\": \"hard-error\"},\n\
    {\"name\": \"syntax-error\", \"value\": 502, \"class\": \"hard-error\"},\n\
    {\"name\": \"command-invalid\", \"value\": 503, \"class\": \"hard-error\"},\n\
    {\"name\": \"channel-error\", \"value\": 504, \"class\": \"hard-error\"},\n\
    {\"name\": \"unexpected-frame\", \"value\": 505, \"class\": \"hard-error\"},\n\
    {\"name\": \"resource-error\", \"value\": 506, \"class\": \"hard-error\"},\n\
    {\"name\": \"not-allowed\", \"value\": 530, \"class\": \"hard-error\"},\n\
    {\"name\": \"not-implemented\", \"value\": 540, \"class\": \"hard-error\"},\n\
    {\"name\": \"internal-error\", \"value\": 541, \"class\": \"hard-error\"}\n\
  ],\n";

/// The bundled specification resource: its connection class.
pub const BUNDLED_CONNECTION: &'static str = "  \"classes\": [\n\
    {\n\
      \"id\": 10,\n\
      \"name\": \"connection\",\n\
      \"properties\": [],\n\
      \"methods\": [\n\
        {\"id\": 10, \"name\": \"start\", \"synchronous\": true, \"arguments\": [\n\
          {\"type\": \"octet\", \"name\": \"version-major\", \"default_value\": 0},\n\
          {\"type\": \"octet\", \"name\": \"version-minor\", \"default_value\": 9},\n\
          {\"domain\": \"peer-properties\", \"name\": \"server-properties\"},\n\
          {\"type\": \"longstr\", \"name\": \"mechanisms\", \"default_value\": \"PLAIN\"},\n\
          {\"type\": \"longstr\", \"name\": \"locales\", \"default_value\": \"en_US\"}\n\
        ]},\n\
        {\"id\": 11, \"name\": \"start-ok\", \"synchronous\": false, \"is_reply\": true, \"arguments\": [\n\
          {\"domain\": \"peer-properties\", \"name\": \"client-properties\"},\n\
          {\"type\": \"shortstr\", \"name\": \"mechanism\", \"default_value\": \"PLAIN\"},\n\
          {\"type\": \"longstr\", \"name\": \"response\"},\n\
          {\"type\": \"shortstr\", \"name\": \"locale\", \"default_value\": \"en_US\"}\n\
        ]},\n\
        {\"id\": 20, \"name\": \"secure\", \"synchronous\": true, \"arguments\": [\n\
          {\"type\": \"longstr\", \"name\": \"challenge\"}\n\
        ]},\n\
        {\"id\": 21, \"name\": \"secure-ok\", \"synchronous\": false, \"is_reply\": true, \"arguments\": [\n\
          {\"type\": \"longstr\", \"name\": \"response\"}\n\
        ]},\n\
        {\"id\": 30, \"name\": \"tune\", \"synchronous\": true, \"arguments\": [\n\
          {\"type\": \"short\", \"name\": \"channel-max\", \"default_value\": 0},\n\
          {\"type\": \"long\", \"name\": \"frame-max\", \"default_value\": 0},\n\
          {\"type\": \"short\", \"name\": \"heartbeat\", \"default_value\": 0}\n\
        ]},\n\
        {\"id\": 31, \"name\": \"tune-ok\", \"synchronous\": false, \"is_reply\": true, \"arguments\": [\n\
          {\"type\": \"short\", \"name\": \"channel-max\", \"default_value\": 0},\n\
          {\"type\": \"long\", \"name\": \"frame-max\", \"default_value\": 0},\n\
          {\"type\": \"short\", \"name\": \"heartbeat\", \"default_value\": 0}\n\
        ]},\n\
        {\"id\": 40, \"name\": \"open\", \"synchronous\": true, \"arguments\": [\n\
          {\"domain\": \"path\", \"name\": \"virtual-host\", \"default_value\": \"/\"},\n\
          {\"type\": \"shortstr\", \"name\": \"capabilities\", \"default_value\": \"\", \"force_default\": true},\n\
          {\"type\": \"bit\", \"name\": \"insist\", \"force_default\": true}\n\
        ]},\n\
        {\"id\": 41, \"name\": \"open-ok\", \"synchronous\": false, \"is_reply\": true, \"arguments\": [\n\
          {\"type\": \"shortstr\", \"name\": \"known-hosts\", \"default_value\": \"\", \"force_default\": true}\n\
        ]},\n\
        {\"id\": 50, \"name\": \"close\", \"synchronous\": true, \"arguments\": [\n\
          {\"domain\": \"reply-code\", \"name\": \"reply-code\"},\n\
          {\"domain\": \"reply-text\", \"name\": \"reply-text\", \"default_value\": \"\"},\n\
          {\"domain\": \"class-id\", \"name\": \"class-id\"},\n\
          {\"domain\": \"method-id\", \"name\": \"method-id\"}\n\
        ]},\n\
        {\"id\": 51, \"name\": \"close-ok\", \"synchronous\": false, \"is_reply\": true, \"arguments\": []},\n\
        {\"id\": 60, \"name\": \"blocked\", \"synchronous\": false, \"arguments\": [\n\
          {\"type\": \"shortstr\", \"name\": \"reason\", \"default_value\": \"\"}\n\
        ]},\n\
        {\"id\": 61, \"name\": \"unblocked\", \"synchronous\": false, \"arguments\": []},\n\
        {\"id\": 70, \"name\": \"update-secret\", \"synchronous\": true, \"arguments\": [\n\
          {\"type\": \"longstr\", \"name\": \"new-secret\"},\n\
          {\"type\": \"shortstr\", \"name\": \"reason\"}\n\
        ]},\n\
        {\"id\": 71, \"name\": \"update-secret-ok\", \"synchronous\": false, \"is_reply\": true, \"arguments\": []}\n\
      ]\n\
    },\n";

/// The bundled specification resource: its channel and exchange classes.
pub const BUNDLED_CHANNEL_EXCHANGE: &'static str = "    {\n\
      \"id\": 20,\n\
      \"name\": \"channel\",\n\
      \"properties\": [],\n\
      \"methods\": [\n\
        {\"id\": 10, \"name\": \"open\", \"synchronous\": true, \"arguments\": [\n\
          {\"type\": \"shortstr\", \"name\": \"out-of-band\", \"default_value\": \"\", \"force_default\": true}\n\
        ]},\n\
        {\"id\": 11, \"name\": \"open-ok\", \"synchronous\": false, \"is_reply\": true, \"arguments\": [\n\
          {\"type\": \"longstr\", \"name\": \"channel-id\", \"default_value\": \"\", \"force_default\": true}\n\
        ]},\n\
        {\"id\": 20, \"name\": \"flow\", \"synchronous\": true, \"arguments\": [\n\
          {\"type\": \"bit\", \"name\": \"active\"}\n\
        ]},\n\
        {\"id\": 21, \"name\": \"flow-ok\", \"synchronous\": false, \"is_reply\": true, \"arguments\": [\n\
          {\"type\": \"bit\", \"name\": \"active\"}\n\
        ]},\n\
        {\"id\": 40, \"name\": \"close\", \"synchronous\": true, \"arguments\": [\n\
          {\"domain\": \"reply-code\", \"name\": \"reply-code\"},\n\
          {\"domain\": \"reply-text\", \"name\": \"reply-text\", \"default_value\": \"\"},\n\
          {\"domain\": \"class-id\", \"name\": \"class-id\"},\n\
          {\"domain\": \"method-id\", \"name\": \"method-id\"}\n\
        ]},\n\
        {\"id\": 41, \"name\": \"close-ok\", \"synchronous\": false, \"is_reply\": true, \"arguments\": []}\n\
      ]\n\
    },\n\
    {\n\
      \"id\": 40,\n\
      \"name\": \"exchange\",\n\
      \"properties\": [],\n\
      \"methods\": [\n\
        {\"id\": 10, \"name\": \"declare\", \"synchronous\": true, \"arguments\": [\n\
          {\"type\": \"short\", \"name\": \"ticket\", \"default_value\": 0, \"force_default\": true},\n\
          {\"domain\": \"exchange-name\", \"name\": \"exchange\"},\n\
          {\"type\": \"shortstr\", \"name\": \"type\", \"default_value\": \"direct\"},\n\
          {\"type\": \"bit\", \"name\": \"passive\"},\n\
          {\"type\": \"bit\", \"name\": \"durable\"},\n\
          {\"type\": \"bit\", \"name\": \"auto-delete\"},\n\
          {\"type\": \"bit\", \"name\": \"internal\"},\n\
          {\"domain\": \"no-wait\", \"name\": \"nowait\"},\n\
          {\"type\": \"table\", \"name\": \"arguments\"}\n\
        ]},\n\
        {\"id\": 11, \"name\": \"declare-ok\", \"synchronous\": false, \"is_reply\": true, \"arguments\": []},\n\
        {\"id\": 20, \"name\": \"delete\", \"synchronous\": true, \"arguments\": [\n\
          {\"type\": \"short\", \"name\": \"ticket\", \"default_value\": 0, \"force_default\": true},\n\
          {\"domain\": \"exchange-name\", \"name\": \"exchange\"},\n\
          {\"type\": \"bit\", \"name\": \"if-unused\"},\n\
          {\"domain\": \"no-wait\", \"name\": \"nowait\"}\n\
        ]},\n\
        {\"id\": 21, \"name\": \"delete-ok\", \"synchronous\": false, \"is_reply\": true, \"arguments\": []},\n\
        {\"id\": 30, \"name\": \"bind\", \"synchronous\": true, \"arguments\": [\n\
          {\"type\": \"short\", \"name\": \"ticket\", \"default_value\": 0, \"force_default\": true},\n\
          {\"domain\": \"exchange-name\", \"name\": \"destination\"},\n\
          {\"domain\": \"exchange-name\", \"name\": \"source\"},\n\
          {\"type\": \"shortstr\", \"name\": \"routing-key\", \"default_value\": \"\"},\n\
          {\"domain\": \"no-wait\", \"name\": \"nowait\"},\n\
          {\"type\": \"table\", \"name\": \"arguments\"}\n\
        ]},\n\
        {\"id\": 31, \"name\": \"bind-ok\", \"synchronous\": false, \"is_reply\": true, \"arguments\": []},\n\
        {\"id\": 40, \"name\": \"unbind\", \"synchronous\": true, \"arguments\": [\n\
          {\"type\": \"short\", \"name\": \"ticket\", \"default_value\": 0, \"force_default\": true},\n\
          {\"domain\": \"exchange-name\", \"name\": \"destination\"},\n\
          {\"domain\": \"exchange-name\", \"name\": \"source\"},\n\
          {\"type\": \"shortstr\", \"name\": \"routing-key\", \"default_value\": \"\"},\n\
          {\"domain\": \"no-wait\", \"name\": \"nowait\"},\n\
          {\"type\": \"table\", \"name\": \"arguments\"}\n\
        ]},\n\
        {\"id\": 51, \"name\": \"unbind-ok\", \"synchronous\": false, \"is_reply\": true, \"arguments\": []}\n\
      ]\n\
    },\n";

/// The bundled specification resource: its queue class.
pub const BUNDLED_QUEUE: &'static str = "    {\n\
      \"id\": 50,\n\
      \"name\": \"queue\",\n\
      \"properties\": [],\n\
      \"methods\": [\n\
        {\"id\": 10, \"name\": \"declare\", \"synchronous\": true, \"arguments\": [\n\
          {\"type\": \"short\", \"name\": \"ticket\", \"default_value\": 0, \"force_default\": true},\n\
          {\"domain\": \"queue-name\", \"name\": \"queue\", \"default_value\": \"\"},\n\
          {\"type\": \"bit\", \"name\": \"passive\"},\n\
          {\"type\": \"bit\", \"name\": \"durable\"},\n\
          {\"type\": \"bit\", \"name\": \"exclusive\"},\n\
          {\"type\": \"bit\", \"name\": \"auto-delete\"},\n\
          {\"domain\": \"no-wait\", \"name\": \"nowait\"},\n\
          {\"type\": \"table\", \"name\": \"arguments\"}\n\
        ]},\n\
        {\"id\": 11, \"name\": \"declare-ok\", \"synchronous\": false, \"is_reply\": true, \"arguments\": [\n\
          {\"domain\": \"queue-name\", \"name\": \"queue\"},\n\
          {\"domain\": \"message-count\", \"name\": \"message-count\"},\n\
          {\"type\": \"long\", \"name\": \"consumer-count\"}\n\
        ]},\n\
        {\"id\": 20, \"name\": \"bind\", \"synchronous\": true, \"arguments\": [\n\
          {\"type\": \"short\", \"name\": \"ticket\", \"default_value\": 0, \"force_default\": true},\n\
          {\"domain\": \"queue-name\", \"name\": \"queue\", \"default_value\": \"\"},\n\
          {\"domain\": \"exchange-name\", \"name\": \"exchange\"},\n\
          {\"type\": \"shortstr\", \"name\": \"routing-key\", \"default_value\": \"\"},\n\
          {\"domain\": \"no-wait\", \"name\": \"nowait\"},\n\
          {\"type\": \"table\", \"name\": \"arguments\"}\n\
        ]},\n\
        {\"id\": 21, \"name\": \"bind-ok\", \"synchronous\": false, \"is_reply\": true, \"arguments\": []},\n\
        {\"id\": 30, \"name\": \"purge\", \"synchronous\": true, \"arguments\": [\n\
          {\"type\": \"short\", \"name\": \"ticket\", \"default_value\": 0, \"force_default\": true},\n\
          {\"domain\": \"queue-name\", \"name\": \"queue\", \"default_value\": \"\"},\n\
          {\"domain\": \"no-wait\", \"name\": \"nowait\"}\n\
        ]},\n\
        {\"id\": 31, \"name\": \"purge-ok\", \"synchronous\": false, \"is_reply\": true, \"arguments\": [\n\
          {\"domain\": \"message-count\", \"name\": \"message-count\"}\n\
        ]},\n\
        {\"id\": 40, \"name\": \"delete\", \"synchronous\": true, \"arguments\": [\n\
          {\"type\": \"short\", \"name\": \"ticket\", \"default_value\": 0, \"force_default\": true},\n\
          {\"domain\": \"queue-name\", \"name\": \"queue\", \"default_value\": \"\"},\n\
          {\"type\": \"bit\", \"name\": \"if-unused\"},\n\
          {\"type\": \"bit\", \"name\": \"if-empty\"},\n\
          {\"domain\": \"no-wait\", \"name\": \"nowait\"}\n\
        ]},\n\
        {\"id\": 41, \"name\": \"delete-ok\", \"synchronous\": false, \"is_reply\": true, \"arguments\": [\n\
          {\"domain\": \"message-count\", \"name\": \"message-count\"}\n\
        ]},\n\
        {\"id\": 50, \"name\": \"unbind\", \"synchronous\": true, \"arguments\": [\n\
          {\"type\": \"short\", \"name\": \"ticket\", \"default_value\": 0, \"force_default\": true},\n\
          {\"domain\": \"queue-name\", \"name\": \"queue\", \"default_value\": \"\"},\n\
          {\"domain\": \"exchange-name\", \"name\": \"exchange\"},\n\
          {\"type\": \"shortstr\", \"name\": \"routing-key\", \"default_value\": \"\"},\n\
          {\"type\": \"table\", \"name\": \"arguments\"}\n\
        ]},\n\
        {\"id\": 51, \"name\": \"unbind-ok\", \"synchronous\": false, \"is_reply\": true, \"arguments\": []}\n\
      ]\n\
    },\n";

/// The bundled specification resource: its basic class.
pub const BUNDLED_BASIC: &'static str = "    {\n\
      \"id\": 60,\n\
      \"name\": \"basic\",\n\
      \"properties\": [\n\
        {\"type\": \"shortstr\", \"name\": \"content-type\"},\n\
        {\"type\": \"shortstr\", \"name\": \"content-encoding\"},\n\
        {\"type\": \"table\", \"name\": \"headers\"},\n\
        {\"type\": \"octet\", \"name\": \"delivery-mode\"},\n\
        {\"type\": \"octet\", \"name\": \"priority\"},\n\
        {\"type\": \"shortstr\", \"name\": \"correlation-id\"},\n\
        {\"type\": \"shortstr\", \"name\": \"reply-to\"},\n\
        {\"type\": \"shortstr\", \"name\": \"expiration\"},\n\
        {\"type\": \"shortstr\", \"name\": \"message-id\"},\n\
        {\"type\": \"timestamp\", \"name\": \"timestamp\"},\n\
        {\"type\": \"shortstr\", \"name\": \"type\"},\n\
        {\"type\": \"shortstr\", \"name\": \"user-id\"},\n\
        {\"type\": \"shortstr\", \"name\": \"app-id\"},\n\
        {\"type\": \"shortstr\", \"name\": \"cluster-id\"}\n\
      ],\n\
      \"methods\": [\n\
        {\"id\": 10, \"name\": \"qos\", \"synchronous\": true, \"arguments\": [\n\
          {\"type\": \"long\", \"name\": \"prefetch-size\", \"default_value\": 0},\n\
          {\"type\": \"short\", \"name\": \"prefetch-count\", \"default_value\": 0},\n\
          {\"type\": \"bit\", \"name\": \"global\"}\n\
        ]},\n\
        {\"id\": 11, \"name\": \"qos-ok\", \"synchronous\": false, \"is_reply\": true, \"arguments\": []},\n\
        {\"id\": 20, \"name\": \"consume\", \"synchronous\": true, \"arguments\": [\n\
          {\"type\": \"short\", \"name\": \"ticket\", \"default_value\": 0, \"force_default\": true},\n\
          {\"domain\": \"queue-name\", \"name\": \"queue\", \"default_value\": \"\"},\n\
          {\"domain\": \"consumer-tag\", \"name\": \"consumer-tag\", \"default_value\": \"\"},\n\
          {\"domain\": \"no-local\", \"name\": \"no-local\"},\n\
          {\"domain\": \"no-ack\", \"name\": \"no-ack\"},\n\
          {\"type\": \"bit\", \"name\": \"exclusive\"},\n\
          {\"domain\": \"no-wait\", \"name\": \"nowait\"},\n\
          {\"type\": \"table\", \"name\": \"arguments\"}\n\
        ]},\n\
        {\"id\": 21, \"name\": \"consume-ok\", \"synchronous\": false, \"is_reply\": true, \"arguments\": [\n\
          {\"domain\": \"consumer-tag\", \"name\": \"consumer-tag\"}\n\
        ]},\n\
        {\"id\": 30, \"name\": \"cancel\", \"synchronous\": true, \"arguments\": [\n\
          {\"domain\": \"consumer-tag\", \"name\": \"consumer-tag\"},\n\
          {\"domain\": \"no-wait\", \"name\": \"nowait\"}\n\
        ]},\n\
        {\"id\": 31, \"name\": \"cancel-ok\", \"synchronous\": false, \"is_reply\": true, \"arguments\": [\n\
          {\"domain\": \"consumer-tag\", \"name\": \"consumer-tag\"}\n\
        ]},\n\
        {\"id\": 40, \"name\": \"publish\", \"synchronous\": false, \"arguments\": [\n\
          {\"type\": \"short\", \"name\": \"ticket\", \"default_value\": 0, \"force_default\": true},\n\
          {\"domain\": \"exchange-name\", \"name\": \"exchange\", \"default_value\": \"\"},\n\
          {\"type\": \"shortstr\", \"name\": \"routing-key\", \"default_value\": \"\"},\n\
          {\"type\": \"bit\", \"name\": \"mandatory\"},\n\
          {\"type\": \"bit\", \"name\": \"immediate\", \"force_default\": true}\n\
        ]},\n\
        {\"id\": 50, \"name\": \"return\", \"synchronous\": false, \"arguments\": [\n\
          {\"domain\": \"reply-code\", \"name\": \"reply-code\"},\n\
          {\"domain\": \"reply-text\", \"name\": \"reply-text\", \"default_value\": \"\"},\n\
          {\"domain\": \"exchange-name\", \"name\": \"exchange\"},\n\
          {\"type\": \"shortstr\", \"name\": \"routing-key\"}\n\
        ]},\n\
        {\"id\": 60, \"name\": \"deliver\", \"synchronous\": false, \"arguments\": [\n\
          {\"domain\": \"consumer-tag\", \"name\": \"consumer-tag\"},\n\
          {\"domain\": \"delivery-tag\", \"name\": \"delivery-tag\"},\n\
          {\"domain\": \"redelivered\", \"name\": \"redelivered\"},\n\
          {\"domain\": \"exchange-name\", \"name\": \"exchange\"},\n\
          {\"type\": \"shortstr\", \"name\": \"routing-key\"}\n\
        ]},\n\
        {\"id\": 70, \"name\": \"get\", \"synchronous\": true, \"arguments\": [\n\
          {\"type\": \"short\", \"name\": \"ticket\", \"default_value\": 0, \"force_default\": true},\n\
          {\"domain\": \"queue-name\", \"name\": \"queue\", \"default_value\": \"\"},\n\
          {\"domain\": \"no-ack\", \"name\": \"no-ack\"}\n\
        ]},\n\
        {\"id\": 71, \"name\": \"get-ok\", \"synchronous\": false, \"is_reply\": true, \"arguments\": [\n\
          {\"domain\": \"delivery-tag\", \"name\": \"delivery-tag\"},\n\
          {\"domain\": \"redelivered\", \"name\": \"redelivered\"},\n\
          {\"domain\": \"exchange-name\", \"name\": \"exchange\"},\n\
          {\"type\": \"shortstr\", \"name\": \"routing-key\"},\n\
          {\"domain\": \"message-count\", \"name\": \"message-count\"}\n\
        ]},\n\
        {\"id\": 72, \"name\": \"get-empty\", \"synchronous\": false, \"is_reply\": true, \"arguments\": [\n\
          {\"type\": \"shortstr\", \"name\": \"cluster-id\", \"default_value\": \"\", \"force_default\": true}\n\
        ]},\n\
        {\"id\": 80, \"name\": \"ack\", \"synchronous\": false, \"arguments\": [\n\
          {\"domain\": \"delivery-tag\", \"name\": \"delivery-tag\"},\n\
          {\"type\": \"bit\", \"name\": \"multiple\"}\n\
        ]},\n\
        {\"id\": 90, \"name\": \"reject\", \"synchronous\": false, \"arguments\": [\n\
          {\"domain\": \"delivery-tag\", \"name\": \"delivery-tag\"},\n\
          {\"type\": \"bit\", \"name\": \"requeue\", \"default_value\": true}\n\
        ]},\n\
        {\"id\": 100, \"name\": \"recover-async\", \"synchronous\": false, \"arguments\": [\n\
          {\"type\": \"bit\", \"name\": \"requeue\"}\n\
        ]},\n\
        {\"id\": 110, \"name\": \"recover\", \"synchronous\": true, \"arguments\": [\n\
          {\"type\": \"bit\", \"name\": \"requeue\"}\n\
        ]},\n\
        {\"id\": 111, \"name\": \"recover-ok\", \"synchronous\": false, \"is_reply\": true, \"arguments\": []},\n\
        {\"id\": 120, \"name\": \"nack\", \"synchronous\": false, \"arguments\": [\n\
          {\"domain\": \"delivery-tag\", \"name\": \"delivery-tag\"},\n\
          {\"type\": \"bit\", \"name\": \"multiple\"},\n\
          {\"type\": \"bit\", \"name\": \"requeue\", \"default_value\": true}\n\
        ]}\n\
      ]\n\
    },\n";

/// The bundled specification resource: its tx and confirm classes, closing the document.
pub const BUNDLED_TX_CONFIRM: &'static str = "    {\n\
      \"id\": 90,\n\
      \"name\": \"tx\",\n\
      \"properties\": [],\n\
      \"methods\": [\n\
        {\"id\": 10, \"name\": \"select\", \"synchronous\": true, \"arguments\": []},\n\
        {\"id\": 11, \"name\": \"select-ok\", \"synchronous\": false, \"is_reply\": true, \"arguments\": []},\n\
        {\"id\": 20, \"name\": \"commit\", \"synchronous\": true, \"arguments\": []},\n\
        {\"id\": 21, \"name\": \"commit-ok\", \"synchronous\": false, \"is_reply\": true, \"arguments\": []},\n\
        {\"id\": 30, \"name\": \"rollback\", \"synchronous\": true, \"arguments\": []},\n\
        {\"id\": 31, \"name\": \"rollback-ok\", \"synchronous\": false, \"is_reply\": true, \"arguments\": []}\n\
      ]\n\
    },\n\
    {\n\
      \"id\": 85,\n\
      \"name\": \"confirm\",\n\
      \"properties\": [],\n\
      \"methods\": [\n\
        {\"id\": 10, \"name\": \"select\", \"synchronous\": true, \"arguments\": [\n\
          {\"type\": \"bit\", \"name\": \"nowait\"}\n\
        ]},\n\
        {\"id\": 11, \"name\": \"select-ok\", \"synchronous\": false, \"is_reply\": true, \"arguments\": []}\n\
      ]\n\
    }\n\
  ]\n\
}\n";

/// The text of the bundled specification resource.
pub open spec fn bundled_text() -> Seq<char> {
    BUNDLED_HEAD@ + BUNDLED_DOMAINS@ + BUNDLED_CONSTANTS@ + BUNDLED_CONNECTION@
        + BUNDLED_CHANNEL_EXCHANGE@ + BUNDLED_QUEUE@ + BUNDLED_BASIC@ + BUNDLED_TX_CONFIRM@
}

/// The bundled specification resource as one document text.
pub(crate) fn bundled_specification() -> (r: String)
    ensures
        r@ == bundled_text(),
{
    let mut s = String::new();
    s.append(BUNDLED_HEAD);
    s.append(BUNDLED_DOMAINS);
    s.append(BUNDLED_CONSTANTS);
    s.append(BUNDLED_CONNECTION);
    s.append(BUNDLED_CHANNEL_EXCHANGE);
    s.append(BUNDLED_QUEUE);
    s.append(BUNDLED_BASIC);
    s.append(BUNDLED_TX_CONFIRM);
    s
}

/// The ways loading can fail: the document does not have the expected shape,
/// or it names duplicate ids or argument names where the specification
/// requires uniqueness. Both indicate a defect in the document, never a
/// runtime condition of a well-packaged library.
#[derive(Clone, Copy, Debug, PartialEq, Eq, Structural)]
pub enum SpecsError {
    /// The document is not in the specification-resource shape
    Malformed,
    /// The document violates a uniqueness invariant of the specification
    Inconsistent,
}

/// String equality over the characters of the two texts.
fn str_eq(a: &str, b: &str) -> (r: bool)
    ensures
        r == (a@ == b@),
{
    let sa: String = a.to_owned();
    let sb: String = b.to_owned();
    sa == sb
}

/// The table binding the specification document's primitive type names to
/// the wire types they denote.
pub open spec fn spec_type_of_name(name: Seq<char>) -> Option<AMQPType> {
    if name == "bit"@ {
        Some(AMQPType::Boolean)
    } else if name == "octet"@ {
        Some(AMQPType::ShortShortUInt)
    } else if name == "short"@ {
        Some(AMQPType::ShortUInt)
    } else if name == "long"@ {
        Some(AMQPType::LongUInt)
    } else if name == "longlong"@ {
        Some(AMQPType::LongLongUInt)
    } else if name == "shortstr"@ {
        Some(AMQPType::ShortString)
    } else if name == "longstr"@ {
        Some(AMQPType::LongString)
    } else if name == "table"@ {
        Some(AMQPType::FieldTable)
    } else if name == "timestamp"@ {
        Some(AMQPType::Timestamp)
    } else {
        None
    }
}

/// Map a primitive type name of the specification document to its wire
/// type; names outside the table yield no match.
pub fn type_of_name(name: &str) -> (r: Option<AMQPType>)
    ensures
        r == spec_type_of_name(name@),
{
    if str_eq(name, "bit") {
        Some(AMQPType::Boolean)
    } else if str_eq(name, "octet") {
        Some(AMQPType::ShortShortUInt)
    } else if str_eq(name, "short") {
        Some(AMQPType::ShortUInt)
    } else if str_eq(name, "long") {
        Some(AMQPType::LongUInt)
    } else if str_eq(name, "longlong") {
        Some(AMQPType::LongLongUInt)
    } else if str_eq(name, "shortstr") {
        Some(AMQPType::ShortString)
    } else if str_eq(name, "longstr") {
        Some(AMQPType::LongString)
    } else if str_eq(name, "table") {
        Some(AMQPType::FieldTable)
    } else if str_eq(name, "timestamp") {
        Some(AMQPType::Timestamp)
    } else {
        None
    }
}

/// The type the first domain of the given name aliases, if any.
pub open spec fn spec_domain_lookup_from(ds: Seq<AMQPDomain>, name: Seq<char>, i: int) -> Option<
    AMQPType,
>
    decreases ds.len() - i,
{
    if i < 0 || i >= ds.len() {
        None
    } else if ds[i].name@ == name {
        Some(ds[i].amqp_type)
    } else {
        spec_domain_lookup_from(ds, name, i + 1)
    }
}

/// The type the domain of the given name aliases, if the name is defined.
pub open spec fn spec_domain_lookup(ds: Seq<AMQPDomain>, name: Seq<char>) -> Option<AMQPType> {
    spec_domain_lookup_from(ds, name, 0)
}

/// Resolve a domain name to the type it aliases.
pub fn domain_lookup(ds: &Vec<AMQPDomain>, name: &str) -> (r: Option<AMQPType>)
    ensures
        r == spec_domain_lookup(ds@, name@),
{
    let mut i: usize = 0;
    while i < ds.len()
        invariant
            0 <= i <= ds@.len(),
            spec_domain_lookup(ds@, name@) == spec_domain_lookup_from(ds@, name@, i as int),
        decreases ds@.len() - i,
    {
        if str_eq(ds[i].name.as_str(), name) {
            return Some(ds[i].amqp_type);
        }
        i = i + 1;
    }
    None
}


/// The constants of one error classification, in document order.
pub open spec fn spec_constants_of_class(
    s: Seq<(AMQPConstant, ConstantClass)>,
    c: ConstantClass,
) -> Seq<AMQPConstant>
    decreases s.len(),
{
    if s.len() == 0 {
        Seq::empty()
    } else {
        let rest = spec_constants_of_class(s.drop_last(), c);
        if s.last().1 == c {
            rest.push(s.last().0)
        } else {
            rest
        }
    }
}

/// Partition the classified constants of the document into the plain
/// constants, the soft errors and the hard errors, each in document order.
pub fn split_constants(all: Vec<(AMQPConstant, ConstantClass)>) -> (r: (
    Vec<AMQPConstant>,
    Vec<AMQPConstant>,
    Vec<AMQPConstant>,
))
    ensures
        r.0@ == spec_constants_of_class(all@, ConstantClass::Plain),
        r.1@ == spec_constants_of_class(all@, ConstantClass::SoftError),
        r.2@ == spec_constants_of_class(all@, ConstantClass::HardError),
{
    let mut plain: Vec<AMQPConstant> = Vec::new();
    let mut soft: Vec<AMQPConstant> = Vec::new();
    let mut hard: Vec<AMQPConstant> = Vec::new();
    let mut rest = all;
    let ghost full = rest@;
    let ghost k: int = 0;
    while rest.len() > 0
        invariant
            0 <= k <= full.len(),
            rest@ == full.skip(k),
            plain@ == spec_constants_of_class(full.subrange(0, k), ConstantClass::Plain),
            soft@ == spec_constants_of_class(full.subrange(0, k), ConstantClass::SoftError),
            hard@ == spec_constants_of_class(full.subrange(0, k), ConstantClass::HardError),
        decreases rest@.len(),
    {
        let (c, cls) = rest.remove(0);
        proof {
            assert(full.skip(k).remove(0) =~= full.skip(k + 1));
            assert(full.subrange(0, k + 1).drop_last() =~= full.subrange(0, k));
            assert(full.subrange(0, k + 1).last() == full[k]);
        }
        match cls {
            ConstantClass::Plain => plain.push(c),
            ConstantClass::SoftError => soft.push(c),
            ConstantClass::HardError => hard.push(c),
        }
        proof {
            k = k + 1;
        }
    }
    proof {
        assert(full.subrange(0, k) =~= full);
    }
    (plain, soft, hard)
}

/// A raw argument of the document, before consecutive booleans are packed:
/// either a boolean flag or a typed value argument.
#[derive(Clone, Debug, PartialEq)]
pub enum RawArgument {
    /// A boolean argument, packed with its neighbours into a flag group
    Bit(AMQPFlagArgument),
    /// An ordinary typed value argument
    Value(AMQPValueArgument),
}

/// The flags of a flag-group argument; empty for a value argument.
pub open spec fn spec_flags_of(a: ArgumentModel) -> Seq<AMQPFlagArgument> {
    match a {
        ArgumentModel::Flags(fs) => fs,
        ArgumentModel::Value(_) => Seq::empty(),
    }
}

/// The packing of a raw argument list: value arguments stand alone, and
/// every maximal run of consecutive boolean arguments becomes one flag
/// group, in order.
pub open spec fn spec_grouped(s: Seq<RawArgument>) -> Seq<ArgumentModel>
    decreases s.len(),
{
    if s.len() == 0 {
        Seq::empty()
    } else {
        let rest = spec_grouped(s.drop_last());
        match s.last() {
            RawArgument::Value(v) => rest.push(ArgumentModel::Value(v)),
            RawArgument::Bit(b) => {
                if s.len() >= 2 && s[s.len() - 2] is Bit {
                    rest.update(
                        rest.len() - 1,
                        ArgumentModel::Flags(spec_flags_of(rest.last()).push(b)),
                    )
                } else {
                    rest.push(ArgumentModel::Flags(seq![b]))
                }
            },
        }
    }
}

/// Pack the raw argument list of a method: each maximal run of consecutive
/// boolean arguments becomes a single flag group, and every other argument
/// is kept as a value argument, all in document order.
pub fn group_arguments(raw: Vec<RawArgument>) -> (r: Vec<AMQPArgument>)
    ensures
        r@.map_values(|a: AMQPArgument| a@) == spec_grouped(raw@),
{
    let mut out: Vec<AMQPArgument> = Vec::new();
    let mut flags: Vec<AMQPFlagArgument> = Vec::new();
    let mut rest = raw;
    let ghost full = rest@;
    let ghost k: int = 0;
    while rest.len() > 0
        invariant
            0 <= k <= full.len(),
            rest@ == full.skip(k),
            flags@.len() == 0 ==> {
                &&& out@.map_values(|a: AMQPArgument| a@) == spec_grouped(full.subrange(0, k))
                &&& (k == 0 || full[k - 1] is Value)
            },
            flags@.len() > 0 ==> {
                &&& k >= 1 && full[k - 1] is Bit
                &&& out@.map_values(|a: AMQPArgument| a@).push(ArgumentModel::Flags(flags@))
                    == spec_grouped(full.subrange(0, k))
            },
        decreases rest@.len(),
    {
        let x = rest.remove(0);
        proof {
            assert(full.skip(k).remove(0) =~= full.skip(k + 1));
            assert(full.subrange(0, k + 1).drop_last() =~= full.subrange(0, k));
            assert(full.subrange(0, k + 1).last() == full[k]);
            if k >= 1 {
                assert(full.subrange(0, k + 1)[k - 1] == full[k - 1]);
            }
        }
        match x {
            RawArgument::Bit(b) => {
                flags.push(b);
                proof {
                    if flags@.len() > 1 {
                        // the run continues: the new flag joins the open group
                        let ov = out@.map_values(|a: AMQPArgument| a@);
                        let prev = ov.push(ArgumentModel::Flags(flags@.drop_last()));
                        assert(flags@.drop_last().push(b) =~= flags@);
                        assert(prev.last() == ArgumentModel::Flags(flags@.drop_last()));
                        assert(prev.update(prev.len() - 1, ArgumentModel::Flags(flags@)) =~= ov.push(
                            ArgumentModel::Flags(flags@),
                        ));
                    } else {
                        assert(flags@ =~= seq![b]);
                    }
                }
            },
            RawArgument::Value(v) => {
                if flags.len() > 0 {
                    let done = flags;
                    flags = Vec::new();
                    out.push(AMQPArgument::Flags(done));
                    proof {
                        assert(out@.drop_last().map_values(|a: AMQPArgument| a@).push(
                            out@.last()@,
                        ) =~= out@.map_values(|a: AMQPArgument| a@));
                    }
                }
                out.push(AMQPArgument::Value(v));
                proof {
                    assert(out@.drop_last().map_values(|a: AMQPArgument| a@).push(out@.last()@)
                        =~= out@.map_values(|a: AMQPArgument| a@));
                }
            },
        }
        proof {
            k = k + 1;
        }
    }
    if flags.len() > 0 {
        out.push(AMQPArgument::Flags(flags));
        proof {
            assert(out@.drop_last().map_values(|a: AMQPArgument| a@).push(out@.last()@)
                =~= out@.map_values(|a: AMQPArgument| a@));
        }
    }
    proof {
        assert(full.subrange(0, k) =~= full);
    }
    out
}



/// The names of a raw argument list, in order: each boolean flag's name and
/// each value argument's name.
pub open spec fn raw_argument_names(s: Seq<RawArgument>) -> Seq<Seq<char>>
    decreases s.len(),
{
    if s.len() == 0 {
        Seq::empty()
    } else {
        raw_argument_names(s.drop_last()) + match s.last() {
            RawArgument::Bit(b) => seq![b.name@],
            RawArgument::Value(v) => seq![v.name@],
        }
    }
}

/// Packing never drops a grouped argument: a non-empty raw list groups into
/// at least one argument, and one ending in a boolean ends in a flag group.
proof fn lemma_grouped_shape(s: Seq<RawArgument>)
    ensures
        s.len() > 0 ==> spec_grouped(s).len() >= 1,
        s.len() > 0 && s.last() is Bit ==> spec_grouped(s).last() is Flags,
    decreases s.len(),
{
    if s.len() > 0 {
        lemma_grouped_shape(s.drop_last());
    }
}

/// The packing of arguments neither loses, duplicates nor reorders any
/// argument: the names of the packed list are exactly the names of the raw
/// list, in order. In particular the loader's name-uniqueness check on the
/// packed arguments decides the uniqueness of the document's raw names.
pub proof fn lemma_grouped_keeps_names(s: Seq<RawArgument>)
    ensures
        arguments_names(spec_grouped(s)) == raw_argument_names(s),
    decreases s.len(),
{
    if s.len() > 0 {
        lemma_grouped_keeps_names(s.drop_last());
        let t = spec_grouped(s.drop_last());
        match s.last() {
            RawArgument::Value(v) => {
                assert(t.push(ArgumentModel::Value(v)).drop_last() =~= t);
                assert(raw_argument_names(s.drop_last()) + seq![v.name@] =~= raw_argument_names(
                    s,
                ));
                assert(arguments_names(t) + argument_names(ArgumentModel::Value(v))
                    =~= arguments_names(t) + seq![v.name@]);
            },
            RawArgument::Bit(b) => {
                if s.len() >= 2 && s[s.len() - 2] is Bit {
                    // the run continues: the name joins the last flag group
                    lemma_grouped_shape(s.drop_last());
                    assert(s.drop_last().last() == s[s.len() - 2]);
                    let fs = spec_flags_of(t.last());
                    let joined = ArgumentModel::Flags(fs.push(b));
                    assert(t.update(t.len() - 1, joined) =~= t.drop_last().push(joined));
                    assert(t.drop_last().push(joined).drop_last() =~= t.drop_last());
                    assert(t.drop_last().push(t.last()) =~= t);
                    // the names of the grown group are the old ones plus the new
                    assert(argument_names(joined) =~= argument_names(t.last()).push(b.name@));
                    assert(arguments_names(t.drop_last()) + argument_names(joined)
                        =~= (arguments_names(t.drop_last()) + argument_names(t.last())).push(
                        b.name@,
                    ));
                    assert(raw_argument_names(s) =~= raw_argument_names(s.drop_last()).push(
                        b.name@,
                    ));
                } else {
                    // a new group of one flag opens
                    assert(t.push(ArgumentModel::Flags(seq![b])).drop_last() =~= t);
                    assert(argument_names(ArgumentModel::Flags(seq![b])) =~= seq![b.name@]);
                }
            },
        }
    }
}


/// The shape of a raw argument.
#[verifier::ext_equal]
pub enum RawArgModel {
    /// A boolean flag argument
    Bit(FlagModel),
    /// An ordinary typed value argument
    Value(ValueArgModel),
}

/// The shape of a raw argument record.
pub open spec fn raw_argument_model(x: RawArgument) -> RawArgModel {
    match x {
        RawArgument::Bit(b) => RawArgModel::Bit(flag_model(b)),
        RawArgument::Value(v) => RawArgModel::Value(value_arg_model(v)),
    }
}

/// The flags of a flag-group shape; empty for a value argument.
pub open spec fn flags_of_model(a: ArgModel) -> Seq<FlagModel> {
    match a {
        ArgModel::Flags(fs) => fs,
        ArgModel::Value(_) => Seq::empty(),
    }
}

/// The packing of raw argument shapes, mirroring `spec_grouped` at the
/// document level.
pub open spec fn spec_grouped_model(s: Seq<RawArgModel>) -> Seq<ArgModel>
    decreases s.len(),
{
    if s.len() == 0 {
        Seq::empty()
    } else {
        let rest = spec_grouped_model(s.drop_last());
        match s.last() {
            RawArgModel::Value(v) => rest.push(ArgModel::Value(v)),
            RawArgModel::Bit(b) => {
                if s.len() >= 2 && s[s.len() - 2] is Bit {
                    rest.update(rest.len() - 1, ArgModel::Flags(flags_of_model(rest.last()).push(b)))
                } else {
                    rest.push(ArgModel::Flags(seq![b]))
                }
            },
        }
    }
}

/// Packing commutes with taking shapes: the shape of the packed records is
/// the packing of the raw shapes.
pub proof fn lemma_grouped_model(s: Seq<RawArgument>)
    ensures
        spec_grouped_model(s.map_values(|x: RawArgument| raw_argument_model(x)))
            == spec_grouped(s).map_values(|a: ArgumentModel| model_of_argument(a)),
    decreases s.len(),
{
    let sm = s.map_values(|x: RawArgument| raw_argument_model(x));
    let g = spec_grouped(s);
    if s.len() == 0 {
        assert(sm =~= Seq::empty());
        assert(g.map_values(|a: ArgumentModel| model_of_argument(a)) =~= Seq::empty());
    } else {
        lemma_grouped_model(s.drop_last());
        let sd = s.drop_last();
        assert(sd.map_values(|x: RawArgument| raw_argument_model(x)) =~= sm.drop_last());
        let rest = spec_grouped(sd);
        let restm = spec_grouped_model(sm.drop_last());
        assert(restm == rest.map_values(|a: ArgumentModel| model_of_argument(a)));
        assert(sm.last() == raw_argument_model(s.last()));
        match s.last() {
            RawArgument::Value(v) => {
                assert(g.map_values(|a: ArgumentModel| model_of_argument(a)) =~= rest.map_values(
                    |a: ArgumentModel| model_of_argument(a),
                ).push(model_of_argument(ArgumentModel::Value(v))));
            },
            RawArgument::Bit(b) => {
                if s.len() >= 2 && s[s.len() - 2] is Bit {
                    assert(sm[sm.len() - 2] == raw_argument_model(s[s.len() - 2]));
                    lemma_grouped_shape(sd);
                    assert(sd.last() == s[s.len() - 2]);
                    let fs = spec_flags_of(rest.last());
                    let joined = ArgumentModel::Flags(fs.push(b));
                    assert(g == rest.update(rest.len() - 1, joined));
                    assert(restm.last() == model_of_argument(rest.last()));
                    assert(flags_of_model(restm.last()) =~= fs.map_values(
                        |f: AMQPFlagArgument| flag_model(f),
                    ));
                    assert(fs.push(b).map_values(|f: AMQPFlagArgument| flag_model(f))
                        =~= fs.map_values(|f: AMQPFlagArgument| flag_model(f)).push(flag_model(b)));
                    assert(spec_grouped_model(sm) == restm.update(
                        restm.len() - 1,
                        ArgModel::Flags(flags_of_model(restm.last()).push(flag_model(b))),
                    ));
                    assert(g.map_values(|a: ArgumentModel| model_of_argument(a)) =~= rest.map_values(
                        |a: ArgumentModel| model_of_argument(a),
                    ).update(rest.len() - 1, model_of_argument(joined)));
                } else {
                    if sm.len() >= 2 {
                        assert(sm[sm.len() - 2] == raw_argument_model(s[s.len() - 2]));
                    }
                    assert(g == rest.push(ArgumentModel::Flags(seq![b])));
                    assert(seq![b].map_values(|f: AMQPFlagArgument| flag_model(f))
                        =~= seq![flag_model(b)]);
                    assert(spec_grouped_model(sm) == restm.push(ArgModel::Flags(seq![flag_model(b)])));
                    assert(g.map_values(|a: ArgumentModel| model_of_argument(a)) =~= rest.map_values(
                        |a: ArgumentModel| model_of_argument(a),
                    ).push(model_of_argument(ArgumentModel::Flags(seq![b]))));
                }
            },
        }
    }
}

/// The constants of one classification among classified constant shapes,
/// mirroring `spec_constants_of_class` at the document level.
pub open spec fn spec_constants_of_class_model(
    s: Seq<(ConstantModel, ConstantClass)>,
    c: ConstantClass,
) -> Seq<ConstantModel>
    decreases s.len(),
{
    if s.len() == 0 {
        Seq::empty()
    } else {
        let rest = spec_constants_of_class_model(s.drop_last(), c);
        if s.last().1 == c {
            rest.push(s.last().0)
        } else {
            rest
        }
    }
}

/// The shape of a classified constant record.
pub open spec fn constant_pair_model(p: (AMQPConstant, ConstantClass)) -> (
    ConstantModel,
    ConstantClass,
) {
    (constant_model(p.0), p.1)
}

/// Splitting commutes with taking shapes.
pub proof fn lemma_split_model(s: Seq<(AMQPConstant, ConstantClass)>, c: ConstantClass)
    ensures
        spec_constants_of_class(s, c).map_values(|x: AMQPConstant| constant_model(x))
            == spec_constants_of_class_model(
            s.map_values(|p: (AMQPConstant, ConstantClass)| constant_pair_model(p)),
            c,
        ),
    decreases s.len(),
{
    let sm = s.map_values(|p: (AMQPConstant, ConstantClass)| constant_pair_model(p));
    if s.len() == 0 {
        assert(sm =~= Seq::empty());
        assert(spec_constants_of_class(s, c).map_values(|x: AMQPConstant| constant_model(x))
            =~= Seq::empty());
    } else {
        lemma_split_model(s.drop_last(), c);
        assert(s.drop_last().map_values(|p: (AMQPConstant, ConstantClass)| constant_pair_model(p))
            =~= sm.drop_last());
        assert(sm.last() == constant_pair_model(s.last()));
        if s.last().1 == c {
            assert(spec_constants_of_class(s, c).map_values(|x: AMQPConstant| constant_model(x))
                =~= spec_constants_of_class(s.drop_last(), c).map_values(
                |x: AMQPConstant| constant_model(x),
            ).push(constant_model(s.last().0)));
        }
    }
}

/// The type the first domain shape of the given name aliases, searched from
/// the given position.
pub open spec fn spec_domain_lookup_model_from(
    ds: Seq<DomainModel>,
    name: Seq<char>,
    i: int,
) -> Option<AMQPType>
    decreases ds.len() - i,
{
    if i < 0 || i >= ds.len() {
        None
    } else if ds[i].name == name {
        Some(ds[i].amqp_type)
    } else {
        spec_domain_lookup_model_from(ds, name, i + 1)
    }
}

/// The type the domain shape of the given name aliases, if defined.
pub open spec fn spec_domain_lookup_model(ds: Seq<DomainModel>, name: Seq<char>) -> Option<
    AMQPType,
> {
    spec_domain_lookup_model_from(ds, name, 0)
}

/// Domain lookup agrees between the records and their shapes.
pub proof fn lemma_domain_lookup_model(ds: Seq<AMQPDomain>, name: Seq<char>, i: int)
    requires
        0 <= i <= ds.len(),
    ensures
        spec_domain_lookup_from(ds, name, i) == spec_domain_lookup_model_from(
            ds.map_values(|d: AMQPDomain| domain_model(d)),
            name,
            i,
        ),
    decreases ds.len() - i,
{
    let dsm = ds.map_values(|d: AMQPDomain| domain_model(d));
    if i < ds.len() {
        assert(dsm[i] == domain_model(ds[i]));
        lemma_domain_lookup_model(ds, name, i + 1);
    }
}

/// The views of a sequence of owned strings.
pub open spec fn str_views(ss: Seq<String>) -> Seq<Seq<char>> {
    ss.map_values(|s: String| s@)
}

/// Collect, in order, every name a method's packed arguments carry: a value
/// argument's own name, or the name of each flag of a group.
fn argument_names_vec(args: &Vec<AMQPArgument>) -> (r: Vec<String>)
    ensures
        str_views(r@) == arguments_names(args@.map_values(|a: AMQPArgument| a@)),
{
    let ghost models = args@.map_values(|a: AMQPArgument| a@);
    let mut r: Vec<String> = Vec::new();
    let n = args.len();
    for i in 0..n
        invariant
            n == args@.len(),
            models == args@.map_values(|a: AMQPArgument| a@),
            str_views(r@) == arguments_names(models.subrange(0, i as int)),
    {
        proof {
            assert(models.subrange(0, i + 1).drop_last() =~= models.subrange(0, i as int));
            assert(models.subrange(0, i + 1).last() == models[i as int]);
        }
        match &args[i] {
            AMQPArgument::Value(v) => {
                r.push(v.name.clone());
                proof {
                    assert(str_views(r@.drop_last()).push(r@.last()@) =~= str_views(r@));
                    assert(arguments_names(models.subrange(0, i as int)) + argument_names(
                        models[i as int],
                    ) =~= arguments_names(models.subrange(0, i as int)).push(v.name@));
                }
            },
            AMQPArgument::Flags(fs) => {
                let ghost base = str_views(r@);
                let m = fs.len();
                for j in 0..m
                    invariant
                        m == fs@.len(),
                        str_views(r@) == base + fs@.subrange(0, j as int).map_values(
                            |f: AMQPFlagArgument| f.name@,
                        ),
                {
                    r.push(fs[j].name.clone());
                    proof {
                        assert(str_views(r@.drop_last()).push(r@.last()@) =~= str_views(r@));
                        assert(base + fs@.subrange(0, j + 1).map_values(
                            |f: AMQPFlagArgument| f.name@,
                        ) =~= (base + fs@.subrange(0, j as int).map_values(
                            |f: AMQPFlagArgument| f.name@,
                        )).push(fs@[j as int].name@));
                    }
                }
                proof {
                    assert(fs@.subrange(0, m as int) =~= fs@);
                    assert(argument_names(models[i as int]) == fs@.map_values(
                        |f: AMQPFlagArgument| f.name@,
                    ));
                }
            },
        }
    }
    proof {
        assert(models.subrange(0, n as int) =~= models);
    }
    r
}

/// Decide whether the given names are pairwise distinct.
fn check_names_unique(names: &Vec<String>) -> (r: bool)
    ensures
        r == names_unique(str_views(names@)),
{
    let n = names.len();
    for i in 0..n
        invariant
            n == names@.len(),
            forall|p: int, q: int|
                0 <= p < q < names@.len() && p < i ==> str_views(names@)[p] != str_views(
                    names@,
                )[q],
    {
        for j in (i + 1)..n
            invariant
                i < n == names@.len(),
                forall|p: int, q: int|
                    0 <= p < q < names@.len() && p < i ==> str_views(names@)[p] != str_views(
                        names@,
                    )[q],
                forall|q: int|
                    i < q < j ==> str_views(names@)[i as int] != str_views(names@)[q],
        {
            if names[i] == names[j] {
                proof {
                    assert(str_views(names@)[i as int] == names@[i as int]@);
                    assert(str_views(names@)[j as int] == names@[j as int]@);
                }
                return false;
            }
        }
    }
    true
}

/// Decide whether a method is well formed: its argument and flag names are
/// pairwise unique.
fn method_wf_check(m: &AMQPMethod) -> (r: bool)
    ensures
        r == m.wf(),
{
    let names = argument_names_vec(&m.arguments);
    check_names_unique(&names)
}

/// Decide whether a class is well formed: method ids pairwise unique, every
/// method well formed.
fn class_wf_check(c: &AMQPClass) -> (r: bool)
    ensures
        r == c.wf(),
{
    let n = c.methods.len();
    for i in 0..n
        invariant
            n == c.methods@.len(),
            forall|p: int, q: int|
                0 <= p < q < c.methods@.len() && p < i ==> c.methods@[p].id != c.methods@[q].id,
    {
        for j in (i + 1)..n
            invariant
                i < n == c.methods@.len(),
                forall|p: int, q: int|
                    0 <= p < q < c.methods@.len() && p < i ==> c.methods@[p].id
                        != c.methods@[q].id,
                forall|q: int| i < q < j ==> c.methods@[i as int].id != c.methods@[q].id,
        {
            if c.methods[i].id == c.methods[j].id {
                return false;
            }
        }
    }
    for i in 0..n
        invariant
            n == c.methods@.len(),
            forall|p: int, q: int|
                0 <= p < q < c.methods@.len() ==> c.methods@[p].id != c.methods@[q].id,
            forall|p: int| 0 <= p < i ==> (#[trigger] c.methods@[p]).wf(),
    {
        if !method_wf_check(&c.methods[i]) {
            return false;
        }
    }
    true
}

/// Decide whether a definition is well formed: domain names pairwise unique,
/// class ids pairwise unique, every class well formed.
fn definition_wf_check(d: &AMQProtocolDefinition) -> (r: bool)
    ensures
        r == d.wf(),
{
    let nd = d.domains.len();
    for i in 0..nd
        invariant
            nd == d.domains@.len(),
            forall|p: int, q: int|
                0 <= p < q < d.domains@.len() && p < i ==> d.domains@[p].name@
                    != d.domains@[q].name@,
    {
        for j in (i + 1)..nd
            invariant
                i < nd == d.domains@.len(),
                forall|p: int, q: int|
                    0 <= p < q < d.domains@.len() && p < i ==> d.domains@[p].name@
                        != d.domains@[q].name@,
                forall|q: int| i < q < j ==> d.domains@[i as int].name@ != d.domains@[q].name@,
        {
            if d.domains[i].name == d.domains[j].name {
                return false;
            }
        }
    }
    let nc = d.classes.len();
    for i in 0..nc
        invariant
            nc == d.classes@.len(),
            forall|p: int, q: int|
                0 <= p < q < d.domains@.len() ==> d.domains@[p].name@ != d.domains@[q].name@,
            forall|p: int, q: int|
                0 <= p < q < d.classes@.len() && p < i ==> d.classes@[p].id != d.classes@[q].id,
    {
        for j in (i + 1)..nc
            invariant
                i < nc == d.classes@.len(),
                forall|p: int, q: int|
                    0 <= p < q < d.domains@.len() ==> d.domains@[p].name@ != d.domains@[q].name@,
                forall|p: int, q: int|
                    0 <= p < q < d.classes@.len() && p < i ==> d.classes@[p].id
                        != d.classes@[q].id,
                forall|q: int| i < q < j ==> d.classes@[i as int].id != d.classes@[q].id,
        {
            if d.classes[i].id == d.classes[j].id {
                return false;
            }
        }
    }
    for i in 0..nc
        invariant
            nc == d.classes@.len(),
            forall|p: int, q: int|
                0 <= p < q < d.domains@.len() ==> d.domains@[p].name@ != d.domains@[q].name@,
            forall|p: int, q: int|
                0 <= p < q < d.classes@.len() ==> d.classes@[p].id != d.classes@[q].id,
            forall|p: int| 0 <= p < i ==> (#[trigger] d.classes@[p]).wf(),
    {
        if !class_wf_check(&d.classes[i]) {
            return false;
        }
    }
    true
}

/// What the metadata merge must leave untouched of a method: everything but
/// the free-form metadata slot.
pub open spec fn merge_keeps_method(a: AMQPMethod, b: AMQPMethod) -> bool {
    &&& b.id == a.id
    &&& b.name == a.name
    &&& b.arguments == a.arguments
    &&& b.synchronous == a.synchronous
    &&& b.is_reply == a.is_reply
}

/// What the metadata merge must leave untouched of a class: everything but
/// the free-form metadata slots of the class and of its methods.
pub open spec fn merge_keeps_class(a: AMQPClass, b: AMQPClass) -> bool {
    &&& b.id == a.id
    &&& b.name == a.name
    &&& b.properties == a.properties
    &&& b.methods@.len() == a.methods@.len()
    &&& forall|k: int|
        0 <= k < a.methods@.len() ==> merge_keeps_method(
            a.methods@[k],
            #[trigger] b.methods@[k],
        )
}

/// Merge the caller-supplied metadata document into the classes: each class
/// takes the document's entry under its name, each method the entry under
/// its class's and its own name, and nothing else of any record changes.
#[verifier::loop_isolation(false)]
pub fn merge_metadata(classes: Vec<AMQPClass>, meta: &serde_json::Value) -> (r: Vec<AMQPClass>)
    ensures
        r@.len() == classes@.len(),
        forall|i: int| 0 <= i < classes@.len() ==> merge_keeps_class(classes@[i], #[trigger] r@[i]),
        r@.map_values(|c: AMQPClass| class_model(c)) == spec_merge(
            classes@.map_values(|c: AMQPClass| class_model(c)),
            content_of(*meta),
        ),
{
    let ghost metam = content_of(*meta);
    let mut out: Vec<AMQPClass> = Vec::new();
    let mut rest = classes;
    let ghost full = rest@;
    while rest.len() > 0
        invariant
            out@.len() + rest@.len() == full.len(),
            forall|j: int| 0 <= j < rest@.len() ==> rest@[j] == full[out@.len() + j],
            forall|i: int| 0 <= i < out@.len() ==> merge_keeps_class(full[i], #[trigger] out@[i]),
            forall|i: int|
                0 <= i < out@.len() ==> class_model(#[trigger] out@[i]) == spec_merged_class(
                    class_model(full[i]),
                    metam,
                ),
        decreases rest@.len(),
    {
        let ghost k: int = out@.len() as int;
        let c = rest.remove(0);
        proof {
            assert(c == full[k]);
        }
        let class_meta = json_get(meta, c.name.as_str());
        let ghost gm: Option<JsonModel> = match class_meta {
            Some(w) => Some(content_of(*w)),
            None => None,
        };
        proof {
            assert(gm == json_get_spec(metam, class_model(full[k]).name));
        }
        let mut new_methods: Vec<AMQPMethod> = Vec::new();
        let mut mrest = c.methods;
        let ghost mfull = mrest@;
        while mrest.len() > 0
            invariant
                new_methods@.len() + mrest@.len() == mfull.len(),
                forall|j: int| 0 <= j < mrest@.len() ==> mrest@[j] == mfull[new_methods@.len() + j],
                forall|i: int|
                    0 <= i < new_methods@.len() ==> merge_keeps_method(
                        mfull[i],
                        #[trigger] new_methods@[i],
                    ),
                forall|i: int|
                    0 <= i < new_methods@.len() ==> method_model(#[trigger] new_methods@[i])
                        == spec_merged_method(method_model(mfull[i]), gm),
            decreases mrest@.len(),
        {
            let m = mrest.remove(0);
            let method_meta = match class_meta {
                Some(cm) => json_get(cm, m.name.as_str()),
                None => None,
            };
            let new_meta = match method_meta {
                Some(v) => v.clone(),
                None => json_null(),
            };
            let AMQPMethod {
                id: mid,
                arguments: margs,
                name: mname,
                synchronous: msync,
                metadata: _,
                is_reply: mreply,
            } = m;
            new_methods.push(
                AMQPMethod {
                    id: mid,
                    arguments: margs,
                    name: mname,
                    synchronous: msync,
                    metadata: new_meta,
                    is_reply: mreply,
                },
            );
            proof {
                assert(method_model(new_methods@.last()) =~= spec_merged_method(
                    method_model(mfull[new_methods@.len() as int - 1]),
                    gm,
                ));
            }
        }
        let new_class_meta = match class_meta {
            Some(v) => v.clone(),
            None => json_null(),
        };
        let AMQPClass { id: cid, methods: _, name: cname, properties: cprops, metadata: _ } = c;
        out.push(
            AMQPClass {
                id: cid,
                methods: new_methods,
                name: cname,
                properties: cprops,
                metadata: new_class_meta,
            },
        );
        proof {
            assert(out@.last().methods@.map_values(|m: AMQPMethod| method_model(m))
                =~= class_model(full[k]).methods.map_values(
                |m: MethodModel| spec_merged_method(m, json_get_spec(metam, class_model(full[k]).name)),
            ));
            assert(class_model(out@.last()) =~= spec_merged_class(class_model(full[k]), metam));
        }
    }
    proof {
        assert(out@.map_values(|c: AMQPClass| class_model(c)) =~= spec_merge(
            full.map_values(|c: AMQPClass| class_model(c)),
            metam,
        ));
    }
    out
}

/// The metadata merge keeps well-formedness: it changes no id and no
/// argument list, so a well-formed class stays well formed.
pub proof fn lemma_merge_keeps_wf(a: AMQPClass, b: AMQPClass)
    requires
        merge_keeps_class(a, b),
        a.wf(),
    ensures
        b.wf(),
{
    assert forall|i: int| 0 <= i < b.methods@.len() implies (#[trigger] b.methods@[i]).wf() by {
        assert(merge_keeps_method(a.methods@[i], b.methods@[i]));
        assert(a.methods@[i].wf());
    }
    assert forall|i: int, j: int|
        0 <= i < j < b.methods@.len() implies b.methods@[i].id != b.methods@[j].id by {
        assert(merge_keeps_method(a.methods@[i], b.methods@[i]));
        assert(merge_keeps_method(a.methods@[j], b.methods@[j]));
    }
}



/// A string field of an object shape.
pub open spec fn spec_get_str(m: JsonModel, key: Seq<char>) -> Option<Seq<char>> {
    match json_get_spec(m, key) {
        Some(JsonModel::Text(t)) => Some(t),
        _ => None,
    }
}

/// An unsigned number field of an object shape.
pub open spec fn spec_get_u64(m: JsonModel, key: Seq<char>) -> Option<u64> {
    match json_get_spec(m, key) {
        Some(JsonModel::UInt(n)) => Some(n),
        _ => None,
    }
}

/// A boolean field of an object shape, with a default for absent or
/// non-boolean fields.
pub open spec fn spec_get_bool_or(m: JsonModel, key: Seq<char>, default: bool) -> bool {
    match json_get_spec(m, key) {
        Some(JsonModel::Bool(b)) => b,
        _ => default,
    }
}

/// What one domain entry of the document decodes to, if anything.
pub open spec fn spec_decode_domain(m: JsonModel) -> Option<DomainModel> {
    match spec_get_str(m, "name"@) {
        None => None,
        Some(n) => match spec_get_str(m, "type"@) {
            None => None,
            Some(t) => match spec_type_of_name(t) {
                None => None,
                Some(ty) => Some(DomainModel { name: n, amqp_type: ty }),
            },
        },
    }
}

/// What the document's domain list decodes to, if anything.
pub open spec fn spec_decode_domains(doc: JsonModel) -> Option<Seq<DomainModel>> {
    match json_get_spec(doc, "domains"@) {
        Some(JsonModel::Array(es)) => spec_decode_domain_seq(es),
        _ => None,
    }
}

/// What one constant entry of the document decodes to, if anything: name,
/// value, optional type (a plain unsigned 16-bit value when absent) and
/// optional error classification.
pub open spec fn spec_decode_constant(m: JsonModel) -> Option<(ConstantModel, ConstantClass)> {
    match spec_get_str(m, "name"@) {
        None => None,
        Some(n) => match spec_get_u64(m, "value"@) {
            None => None,
            Some(vr) => if vr > 65535 {
                None
            } else {
                let ty = match json_get_spec(m, "type"@) {
                    Some(JsonModel::Text(tn)) => spec_type_of_name(tn),
                    Some(_) => None,
                    None => Some(AMQPType::ShortUInt),
                };
                match ty {
                    None => None,
                    Some(t) => {
                        let cl = match json_get_spec(m, "class"@) {
                            Some(JsonModel::Text(cn)) => if cn == "soft-error"@ {
                                Some(ConstantClass::SoftError)
                            } else if cn == "hard-error"@ {
                                Some(ConstantClass::HardError)
                            } else {
                                None
                            },
                            Some(_) => None,
                            None => Some(ConstantClass::Plain),
                        };
                        match cl {
                            None => None,
                            Some(k) => Some(
                                (ConstantModel { name: n, value: vr as u16, amqp_type: t }, k),
                            ),
                        }
                    },
                }
            },
        },
    }
}

/// What the document's constant list decodes to, if anything.
pub open spec fn spec_decode_constants(doc: JsonModel) -> Option<
    Seq<(ConstantModel, ConstantClass)>,
> {
    match json_get_spec(doc, "constants"@) {
        Some(JsonModel::Array(es)) => spec_decode_constant_seq(es),
        _ => None,
    }
}

/// What one argument entry decodes to, if anything: the type from the "type"
/// field or the referenced domain; a boolean becomes a flag to pack.
pub open spec fn spec_decode_raw_argument(m: JsonModel, ds: Seq<DomainModel>) -> Option<
    RawArgModel,
> {
    match spec_get_str(m, "name"@) {
        None => None,
        Some(n) => {
            let ty = match spec_get_str(m, "type"@) {
                Some(tn) => spec_type_of_name(tn),
                None => match spec_get_str(m, "domain"@) {
                    Some(dn) => spec_domain_lookup_model(ds, dn),
                    None => None,
                },
            };
            match ty {
                None => None,
                Some(t) => if t == AMQPType::Boolean {
                    Some(
                        RawArgModel::Bit(
                            FlagModel {
                                name: n,
                                default_value: spec_get_bool_or(m, "default_value"@, false),
                            },
                        ),
                    )
                } else {
                    Some(
                        RawArgModel::Value(
                            ValueArgModel {
                                amqp_type: t,
                                name: n,
                                default_value: json_get_spec(m, "default_value"@),
                                domain: spec_get_str(m, "domain"@),
                                force_default: spec_get_bool_or(m, "force_default"@, false),
                            },
                        ),
                    )
                },
            }
        },
    }
}

/// What one property entry decodes to, if anything.
pub open spec fn spec_decode_property(m: JsonModel, ds: Seq<DomainModel>) -> Option<PropertyModel> {
    match spec_get_str(m, "name"@) {
        None => None,
        Some(n) => {
            let ty = match spec_get_str(m, "type"@) {
                Some(tn) => spec_type_of_name(tn),
                None => match spec_get_str(m, "domain"@) {
                    Some(dn) => spec_domain_lookup_model(ds, dn),
                    None => None,
                },
            };
            match ty {
                None => None,
                Some(t) => Some(PropertyModel { amqp_type: t, name: n }),
            }
        },
    }
}

/// What one method entry decodes to, if anything: the raw arguments decode
/// elementwise and are packed; the metadata slot starts empty.
pub open spec fn spec_decode_method(m: JsonModel, ds: Seq<DomainModel>) -> Option<MethodModel> {
    match spec_get_u64(m, "id"@) {
        None => None,
        Some(idr) => if idr > 65535 {
            None
        } else {
            match spec_get_str(m, "name"@) {
                None => None,
                Some(n) => {
                    let raws = match json_get_spec(m, "arguments"@) {
                        Some(JsonModel::Array(es)) => spec_decode_raw_argument_seq(es, ds),
                        Some(_) => None,
                        None => Some(Seq::<RawArgModel>::empty()),
                    };
                    match raws {
                        None => None,
                        Some(rs) => Some(
                            MethodModel {
                                id: idr as u16,
                                arguments: spec_grouped_model(rs),
                                name: n,
                                synchronous: spec_get_bool_or(m, "synchronous"@, false),
                                metadata: JsonModel::Null,
                                is_reply: spec_get_bool_or(m, "is_reply"@, false),
                            },
                        ),
                    }
                },
            }
        },
    }
}

/// What one class entry decodes to, if anything: methods required,
/// properties optional; the metadata slot starts empty.
pub open spec fn spec_decode_class(m: JsonModel, ds: Seq<DomainModel>) -> Option<ClassModel> {
    match spec_get_u64(m, "id"@) {
        None => None,
        Some(idr) => if idr > 65535 {
            None
        } else {
            match spec_get_str(m, "name"@) {
                None => None,
                Some(n) => {
                    let methods = match json_get_spec(m, "methods"@) {
                        Some(JsonModel::Array(es)) => spec_decode_method_seq(es, ds),
                        _ => None,
                    };
                    match methods {
                        None => None,
                        Some(ms) => {
                            let props = match json_get_spec(m, "properties"@) {
                                Some(JsonModel::Array(es)) => spec_decode_property_seq(es, ds),
                                Some(_) => None,
                                None => Some(Seq::<PropertyModel>::empty()),
                            };
                            match props {
                                None => None,
                                Some(ps) => Some(
                                    ClassModel {
                                        id: idr as u16,
                                        methods: ms,
                                        name: n,
                                        properties: ps,
                                        metadata: JsonModel::Null,
                                    },
                                ),
                            }
                        },
                    }
                },
            }
        },
    }
}

/// What the document's class list decodes to, if anything.
pub open spec fn spec_decode_classes(doc: JsonModel, ds: Seq<DomainModel>) -> Option<
    Seq<ClassModel>,
> {
    match json_get_spec(doc, "classes"@) {
        Some(JsonModel::Array(es)) => spec_decode_class_seq(es, ds),
        _ => None,
    }
}


/// Elementwise decoding of a domain array: every element must decode, and
/// the results keep the document order.
pub open spec fn spec_decode_domain_seq(es: Seq<JsonModel>) -> Option<Seq<DomainModel>>
    decreases es.len(),
{
    if es.len() == 0 {
        Some(Seq::empty())
    } else {
        match spec_decode_domain_seq(es.drop_last()) {
            None => None,
            Some(rest) => match spec_decode_domain(es.last()) {
                None => None,
                Some(x) => Some(rest.push(x)),
            },
        }
    }
}

/// One undecodable element makes the whole array undecodable.
pub proof fn lemma_domain_seq_fails(es: Seq<JsonModel>, i: int)
    requires
        0 <= i < es.len(),
        spec_decode_domain(es[i]) is None,
    ensures
        spec_decode_domain_seq(es) is None,
    decreases es.len(),
{
    if i < es.len() - 1 {
        lemma_domain_seq_fails(es.drop_last(), i);
    }
}

/// Elementwise decoding of a constant array: every element must decode, and
/// the results keep the document order.
pub open spec fn spec_decode_constant_seq(es: Seq<JsonModel>) -> Option<Seq<(ConstantModel, ConstantClass)>>
    decreases es.len(),
{
    if es.len() == 0 {
        Some(Seq::empty())
    } else {
        match spec_decode_constant_seq(es.drop_last()) {
            None => None,
            Some(rest) => match spec_decode_constant(es.last()) {
                None => None,
                Some(x) => Some(rest.push(x)),
            },
        }
    }
}

/// One undecodable element makes the whole array undecodable.
pub proof fn lemma_constant_seq_fails(es: Seq<JsonModel>, i: int)
    requires
        0 <= i < es.len(),
        spec_decode_constant(es[i]) is None,
    ensures
        spec_decode_constant_seq(es) is None,
    decreases es.len(),
{
    if i < es.len() - 1 {
        lemma_constant_seq_fails(es.drop_last(), i);
    }
}

/// Elementwise decoding of a raw_argument array: every element must decode, and
/// the results keep the document order.
pub open spec fn spec_decode_raw_argument_seq(es: Seq<JsonModel>, ds: Seq<DomainModel>) -> Option<Seq<RawArgModel>>
    decreases es.len(),
{
    if es.len() == 0 {
        Some(Seq::empty())
    } else {
        match spec_decode_raw_argument_seq(es.drop_last(), ds) {
            None => None,
            Some(rest) => match spec_decode_raw_argument(es.last(), ds) {
                None => None,
                Some(x) => Some(rest.push(x)),
            },
        }
    }
}

/// One undecodable element makes the whole array undecodable.
pub proof fn lemma_raw_argument_seq_fails(es: Seq<JsonModel>, ds: Seq<DomainModel>, i: int)
    requires
        0 <= i < es.len(),
        spec_decode_raw_argument(es[i], ds) is None,
    ensures
        spec_decode_raw_argument_seq(es, ds) is None,
    decreases es.len(),
{
    if i < es.len() - 1 {
        lemma_raw_argument_seq_fails(es.drop_last(), ds, i);
    }
}

/// Elementwise decoding of a property array: every element must decode, and
/// the results keep the document order.
pub open spec fn spec_decode_property_seq(es: Seq<JsonModel>, ds: Seq<DomainModel>) -> Option<Seq<PropertyModel>>
    decreases es.len(),
{
    if es.len() == 0 {
        Some(Seq::empty())
    } else {
        match spec_decode_property_seq(es.drop_last(), ds) {
            None => None,
            Some(rest) => match spec_decode_property(es.last(), ds) {
                None => None,
                Some(x) => Some(rest.push(x)),
            },
        }
    }
}

/// One undecodable element makes the whole array undecodable.
pub proof fn lemma_property_seq_fails(es: Seq<JsonModel>, ds: Seq<DomainModel>, i: int)
    requires
        0 <= i < es.len(),
        spec_decode_property(es[i], ds) is None,
    ensures
        spec_decode_property_seq(es, ds) is None,
    decreases es.len(),
{
    if i < es.len() - 1 {
        lemma_property_seq_fails(es.drop_last(), ds, i);
    }
}

/// Elementwise decoding of a method array: every element must decode, and
/// the results keep the document order.
pub open spec fn spec_decode_method_seq(es: Seq<JsonModel>, ds: Seq<DomainModel>) -> Option<Seq<MethodModel>>
    decreases es.len(),
{
    if es.len() == 0 {
        Some(Seq::empty())
    } else {
        match spec_decode_method_seq(es.drop_last(), ds) {
            None => None,
            Some(rest) => match spec_decode_method(es.last(), ds) {
                None => None,
                Some(x) => Some(rest.push(x)),
            },
        }
    }
}

/// One undecodable element makes the whole array undecodable.
pub proof fn lemma_method_seq_fails(es: Seq<JsonModel>, ds: Seq<DomainModel>, i: int)
    requires
        0 <= i < es.len(),
        spec_decode_method(es[i], ds) is None,
    ensures
        spec_decode_method_seq(es, ds) is None,
    decreases es.len(),
{
    if i < es.len() - 1 {
        lemma_method_seq_fails(es.drop_last(), ds, i);
    }
}

/// Elementwise decoding of a class array: every element must decode, and
/// the results keep the document order.
pub open spec fn spec_decode_class_seq(es: Seq<JsonModel>, ds: Seq<DomainModel>) -> Option<Seq<ClassModel>>
    decreases es.len(),
{
    if es.len() == 0 {
        Some(Seq::empty())
    } else {
        match spec_decode_class_seq(es.drop_last(), ds) {
            None => None,
            Some(rest) => match spec_decode_class(es.last(), ds) {
                None => None,
                Some(x) => Some(rest.push(x)),
            },
        }
    }
}

/// One undecodable element makes the whole array undecodable.
pub proof fn lemma_class_seq_fails(es: Seq<JsonModel>, ds: Seq<DomainModel>, i: int)
    requires
        0 <= i < es.len(),
        spec_decode_class(es[i], ds) is None,
    ensures
        spec_decode_class_seq(es, ds) is None,
    decreases es.len(),
{
    if i < es.len() - 1 {
        lemma_class_seq_fails(es.drop_last(), ds, i);
    }
}

/// A merged method shape: the metadata document's entry under its name
/// within the class's entry fills its metadata slot; nothing else changes.
pub open spec fn spec_merged_method(m: MethodModel, cm: Option<JsonModel>) -> MethodModel {
    MethodModel {
        metadata: match cm {
            Some(c) => or_null(json_get_spec(c, m.name)),
            None => JsonModel::Null,
        },
        ..m
    }
}

/// A merged class shape: the metadata document's entry under the class's
/// name fills its metadata slot and feeds its methods; nothing else changes.
pub open spec fn spec_merged_class(c: ClassModel, meta: JsonModel) -> ClassModel {
    ClassModel {
        metadata: or_null(json_get_spec(meta, c.name)),
        methods: c.methods.map_values(
            |m: MethodModel| spec_merged_method(m, json_get_spec(meta, c.name)),
        ),
        ..c
    }
}

/// The metadata merge over class shapes.
pub open spec fn spec_merge(cs: Seq<ClassModel>, meta: JsonModel) -> Seq<ClassModel> {
    cs.map_values(|c: ClassModel| spec_merged_class(c, meta))
}

/// What loading a parsed specification document with a parsed metadata
/// document yields: the decoded and merged definition where the document is
/// well shaped, `Malformed` where it is not, and `Inconsistent` where it
/// violates a uniqueness invariant.
pub open spec fn spec_load(doc: JsonModel, meta: JsonModel) -> Result<DefinitionModel, SpecsError> {
    match spec_get_str(doc, "name"@) {
        None => Err(SpecsError::Malformed),
        Some(name) => match spec_get_u64(doc, "major_version"@) {
            None => Err(SpecsError::Malformed),
            Some(major) => match spec_get_u64(doc, "minor_version"@) {
                None => Err(SpecsError::Malformed),
                Some(minor) => match spec_get_u64(doc, "revision"@) {
                    None => Err(SpecsError::Malformed),
                    Some(revision) => if major > 255 || minor > 255 || revision > 255 {
                        Err(SpecsError::Malformed)
                    } else {
                        match spec_get_u64(doc, "port"@) {
                            None => Err(SpecsError::Malformed),
                            Some(port) => if port > 4294967295 {
                                Err(SpecsError::Malformed)
                            } else {
                                match spec_get_str(doc, "copyright"@) {
                                    None => Err(SpecsError::Malformed),
                                    Some(copyright) => match spec_decode_domains(doc) {
                                        None => Err(SpecsError::Malformed),
                                        Some(domains) => match spec_decode_constants(doc) {
                                            None => Err(SpecsError::Malformed),
                                            Some(pairs) => match spec_decode_classes(doc, domains) {
                                                None => Err(SpecsError::Malformed),
                                                Some(classes) => {
                                                    let def = DefinitionModel {
                                                        name,
                                                        major_version: major as u8,
                                                        minor_version: minor as u8,
                                                        revision: revision as u8,
                                                        port: port as u32,
                                                        copyright,
                                                        domains,
                                                        constants: spec_constants_of_class_model(
                                                            pairs,
                                                            ConstantClass::Plain,
                                                        ),
                                                        soft_errors: spec_constants_of_class_model(
                                                            pairs,
                                                            ConstantClass::SoftError,
                                                        ),
                                                        hard_errors: spec_constants_of_class_model(
                                                            pairs,
                                                            ConstantClass::HardError,
                                                        ),
                                                        classes: spec_merge(classes, meta),
                                                    };
                                                    if def.wf() {
                                                        Ok(def)
                                                    } else {
                                                        Err(SpecsError::Inconsistent)
                                                    }
                                                },
                                            },
                                        },
                                    },
                                }
                            },
                        }
                    },
                },
            },
        },
    }
}

/// The text of a string field of an object value, if present and a string.
fn get_str(v: &serde_json::Value, key: &str) -> (r: Option<String>)
    ensures
        r is Some <==> spec_get_str(content_of(*v), key@) is Some,
        r matches Some(s) ==> spec_get_str(content_of(*v), key@) == Some(s@),
{
    match json_get(v, key) {
        Some(f) => json_str(f),
        None => None,
    }
}

/// The value of an unsigned number field of an object value, if present and
/// such a number.
fn get_u64(v: &serde_json::Value, key: &str) -> (r: Option<u64>)
    ensures
        r == spec_get_u64(content_of(*v), key@),
{
    match json_get(v, key) {
        Some(f) => json_u64(f),
        None => None,
    }
}

/// The value of a boolean field of an object value; absent or non-boolean
/// fields read as the given default.
fn get_bool_or(v: &serde_json::Value, key: &str, default: bool) -> (r: bool)
    ensures
        r == spec_get_bool_or(content_of(*v), key@, default),
{
    match json_get(v, key) {
        Some(f) => match json_bool(f) {
            Some(b) => b,
            None => default,
        },
        None => default,
    }
}

/// Decode the domain list of the document: each entry aliases a name to a
/// primitive type of the name-to-type table.
fn decode_domains(doc: &serde_json::Value) -> (r: Option<Vec<AMQPDomain>>)
    ensures
        r is Some <==> spec_decode_domains(content_of(*doc)) is Some,
        r matches Some(ds) ==> spec_decode_domains(content_of(*doc)) == Some(
            ds@.map_values(|d: AMQPDomain| domain_model(d)),
        ),
{
    let arr = match json_get(doc, "domains") {
        Some(v) => match json_array(v) {
            Some(a) => a,
            None => {
                return None;
            },
        },
        None => {
            return None;
        },
    };
    let ghost esm = arr@.map_values(|w: serde_json::Value| content_of(w));
    let mut out: Vec<AMQPDomain> = Vec::new();
    let n = arr.len();
    for i in 0..n
        invariant
            n == arr@.len(),
            esm == arr@.map_values(|w: serde_json::Value| content_of(w)),
            spec_decode_domains(content_of(*doc)) == spec_decode_domain_seq(esm),
            spec_decode_domain_seq(esm.subrange(0, i as int)) == Some(
                out@.map_values(|d: AMQPDomain| domain_model(d)),
            ),
    {
        proof {
            assert(esm[i as int] == content_of(arr@[i as int]));
            assert(esm.subrange(0, i + 1).drop_last() =~= esm.subrange(0, i as int));
            assert(esm.subrange(0, i + 1).last() == esm[i as int]);
        }
        let name = match get_str(&arr[i], "name") {
            Some(s) => s,
            None => {
                proof {
                    lemma_domain_seq_fails(esm, i as int);
                }
                return None;
            },
        };
        let alias_of = match get_str(&arr[i], "type") {
            Some(s) => s,
            None => {
                proof {
                    lemma_domain_seq_fails(esm, i as int);
                }
                return None;
            },
        };
        let amqp_type = match type_of_name(alias_of.as_str()) {
            Some(t) => t,
            None => {
                proof {
                    lemma_domain_seq_fails(esm, i as int);
                }
                return None;
            },
        };
        out.push(AMQPDomain { name, amqp_type });
        proof {
            assert(spec_decode_domain(esm[i as int]) == Some(domain_model(out@.last())));
            assert(out@.drop_last().map_values(|d: AMQPDomain| domain_model(d)).push(
                domain_model(out@.last()),
            ) =~= out@.map_values(|d: AMQPDomain| domain_model(d)));
        }
    }
    proof {
        assert(esm.subrange(0, n as int) =~= esm);
    }
    Some(out)
}

/// Decode one constant of the document: name, value, optional type (a plain
/// unsigned 16-bit value when absent) and optional error classification.
fn decode_constant(v: &serde_json::Value) -> (r: Option<(AMQPConstant, ConstantClass)>)
    ensures
        r is Some <==> spec_decode_constant(content_of(*v)) is Some,
        r matches Some(x) ==> spec_decode_constant(content_of(*v)) == Some(constant_pair_model(x)),
{
    let name = match get_str(v, "name") {
        Some(s) => s,
        None => {
            return None;
        },
    };
    let value_raw = match get_u64(v, "value") {
        Some(n) => n,
        None => {
            return None;
        },
    };
    if value_raw > 65535 {
        return None;
    }
    let value: u16 = value_raw as u16;
    let amqp_type = match json_get(v, "type") {
        Some(tv) => match json_str(tv) {
            Some(tn) => match type_of_name(tn.as_str()) {
                Some(t) => t,
                None => {
                    return None;
                },
            },
            None => {
                return None;
            },
        },
        None => AMQPType::ShortUInt,
    };
    let class = match json_get(v, "class") {
        Some(cv) => match json_str(cv) {
            Some(cn) => {
                if str_eq(cn.as_str(), "soft-error") {
                    ConstantClass::SoftError
                } else if str_eq(cn.as_str(), "hard-error") {
                    ConstantClass::HardError
                } else {
                    return None;
                }
            },
            None => {
                return None;
            },
        },
        None => ConstantClass::Plain,
    };
    let out = (AMQPConstant { name, value, amqp_type }, class);
    proof {
        assert(spec_decode_constant(content_of(*v)) == Some(constant_pair_model(out)));
    }
    Some(out)
}

/// Decode the constant list of the document, each with its classification.
fn decode_constants(doc: &serde_json::Value) -> (r: Option<Vec<(AMQPConstant, ConstantClass)>>)
    ensures
        r is Some <==> spec_decode_constants(content_of(*doc)) is Some,
        r matches Some(cs) ==> spec_decode_constants(content_of(*doc)) == Some(
            cs@.map_values(|p: (AMQPConstant, ConstantClass)| constant_pair_model(p)),
        ),
{
    let arr = match json_get(doc, "constants") {
        Some(v) => match json_array(v) {
            Some(a) => a,
            None => {
                return None;
            },
        },
        None => {
            return None;
        },
    };
    let ghost esm = arr@.map_values(|w: serde_json::Value| content_of(w));
    let mut out: Vec<(AMQPConstant, ConstantClass)> = Vec::new();
    let n = arr.len();
    for i in 0..n
        invariant
            n == arr@.len(),
            esm == arr@.map_values(|w: serde_json::Value| content_of(w)),
            spec_decode_constants(content_of(*doc)) == spec_decode_constant_seq(esm),
            spec_decode_constant_seq(esm.subrange(0, i as int)) == Some(
                out@.map_values(|p: (AMQPConstant, ConstantClass)| constant_pair_model(p)),
            ),
    {
        proof {
            assert(esm[i as int] == content_of(arr@[i as int]));
            assert(esm.subrange(0, i + 1).drop_last() =~= esm.subrange(0, i as int));
            assert(esm.subrange(0, i + 1).last() == esm[i as int]);
        }
        match decode_constant(&arr[i]) {
            Some(p) => {
                out.push(p);
                proof {
                    assert(out@.drop_last().map_values(
                        |q: (AMQPConstant, ConstantClass)| constant_pair_model(q),
                    ).push(constant_pair_model(out@.last())) =~= out@.map_values(
                        |q: (AMQPConstant, ConstantClass)| constant_pair_model(q),
                    ));
                }
            },
            None => {
                proof {
                    lemma_constant_seq_fails(esm, i as int);
                }
                return None;
            },
        }
    }
    proof {
        assert(esm.subrange(0, n as int) =~= esm);
    }
    Some(out)
}

/// Decode one raw argument: its type comes from the "type" field or, when
/// that is absent, from the domain it references; a boolean argument becomes
/// a flag to be packed with its neighbours.
fn decode_argument(v: &serde_json::Value, domains: &Vec<AMQPDomain>) -> (r: Option<RawArgument>)
    ensures
        r is Some <==> spec_decode_raw_argument(
            content_of(*v),
            domains@.map_values(|d: AMQPDomain| domain_model(d)),
        ) is Some,
        r matches Some(x) ==> spec_decode_raw_argument(
            content_of(*v),
            domains@.map_values(|d: AMQPDomain| domain_model(d)),
        ) == Some(raw_argument_model(x)),
{
    let name = match get_str(v, "name") {
        Some(s) => s,
        None => {
            return None;
        },
    };
    let domain = get_str(v, "domain");
    let amqp_type = match get_str(v, "type") {
        Some(tn) => match type_of_name(tn.as_str()) {
            Some(t) => t,
            None => {
                return None;
            },
        },
        None => match &domain {
            Some(dn) => {
                let looked = domain_lookup(domains, dn.as_str());
                proof {
                    lemma_domain_lookup_model(domains@, dn@, 0);
                }
                match looked {
                    Some(t) => t,
                    None => {
                        return None;
                    },
                }
            },
            None => {
                return None;
            },
        },
    };
    if amqp_type == AMQPType::Boolean {
        let default_value = get_bool_or(v, "default_value", false);
        let out = RawArgument::Bit(AMQPFlagArgument { name, default_value });
        proof {
            assert(spec_decode_raw_argument(
                content_of(*v),
                domains@.map_values(|d: AMQPDomain| domain_model(d)),
            ) == Some(raw_argument_model(out)));
        }
        Some(out)
    } else {
        let default_value = match json_get(v, "default_value") {
            Some(dv) => Some(dv.clone()),
            None => None,
        };
        let force_default = get_bool_or(v, "force_default", false);
        let out = RawArgument::Value(
            AMQPValueArgument { amqp_type, name, default_value, domain, force_default },
        );
        proof {
            assert(spec_decode_raw_argument(
                content_of(*v),
                domains@.map_values(|d: AMQPDomain| domain_model(d)),
            ) == Some(raw_argument_model(out)));
        }
        Some(out)
    }
}

/// Decode one property: a name and a type, the latter from the "type" field
/// or from a domain reference.
fn decode_property(v: &serde_json::Value, domains: &Vec<AMQPDomain>) -> (r: Option<AMQPProperty>)
    ensures
        r is Some <==> spec_decode_property(
            content_of(*v),
            domains@.map_values(|d: AMQPDomain| domain_model(d)),
        ) is Some,
        r matches Some(p) ==> spec_decode_property(
            content_of(*v),
            domains@.map_values(|d: AMQPDomain| domain_model(d)),
        ) == Some(property_model(p)),
{
    let name = match get_str(v, "name") {
        Some(s) => s,
        None => {
            return None;
        },
    };
    let amqp_type = match get_str(v, "type") {
        Some(tn) => match type_of_name(tn.as_str()) {
            Some(t) => t,
            None => {
                return None;
            },
        },
        None => match get_str(v, "domain") {
            Some(dn) => {
                let looked = domain_lookup(domains, dn.as_str());
                proof {
                    lemma_domain_lookup_model(domains@, dn@, 0);
                }
                match looked {
                    Some(t) => t,
                    None => {
                        return None;
                    },
                }
            },
            None => {
                return None;
            },
        },
    };
    Some(AMQPProperty { amqp_type, name })
}

/// Decode one method: id, name, flags of the method itself, and its argument
/// list with consecutive booleans packed into flag groups. Its metadata slot
/// starts empty; the merge fills it.
#[verifier::loop_isolation(false)]
fn decode_method(v: &serde_json::Value, domains: &Vec<AMQPDomain>) -> (r: Option<AMQPMethod>)
    ensures
        r is Some <==> spec_decode_method(
            content_of(*v),
            domains@.map_values(|d: AMQPDomain| domain_model(d)),
        ) is Some,
        r matches Some(m) ==> spec_decode_method(
            content_of(*v),
            domains@.map_values(|d: AMQPDomain| domain_model(d)),
        ) == Some(method_model(m)),
{
    let ghost dm = domains@.map_values(|d: AMQPDomain| domain_model(d));
    let id_raw = match get_u64(v, "id") {
        Some(n) => n,
        None => {
            return None;
        },
    };
    if id_raw > 65535 {
        return None;
    }
    let id: u16 = id_raw as u16;
    let name = match get_str(v, "name") {
        Some(s) => s,
        None => {
            return None;
        },
    };
    let synchronous = get_bool_or(v, "synchronous", false);
    let is_reply = get_bool_or(v, "is_reply", false);
    let mut raw_args: Vec<RawArgument> = Vec::new();
    match json_get(v, "arguments") {
        Some(av) => {
            let arr = match json_array(av) {
                Some(a) => a,
                None => {
                    return None;
                },
            };
            let ghost esm = arr@.map_values(|w: serde_json::Value| content_of(w));
            let n = arr.len();
            for i in 0..n
                invariant
                    n == arr@.len(),
                    dm == domains@.map_values(|d: AMQPDomain| domain_model(d)),
                    esm == arr@.map_values(|w: serde_json::Value| content_of(w)),
                    spec_decode_raw_argument_seq(esm.subrange(0, i as int), dm) == Some(
                        raw_args@.map_values(|x: RawArgument| raw_argument_model(x)),
                    ),
            {
                proof {
                    assert(esm[i as int] == content_of(arr@[i as int]));
                    assert(esm.subrange(0, i + 1).drop_last() =~= esm.subrange(0, i as int));
                    assert(esm.subrange(0, i + 1).last() == esm[i as int]);
                }
                match decode_argument(&arr[i], domains) {
                    Some(a) => {
                        raw_args.push(a);
                        proof {
                            assert(raw_args@.drop_last().map_values(
                                |x: RawArgument| raw_argument_model(x),
                            ).push(raw_argument_model(raw_args@.last())) =~= raw_args@.map_values(
                                |x: RawArgument| raw_argument_model(x),
                            ));
                        }
                    },
                    None => {
                        proof {
                            lemma_raw_argument_seq_fails(esm, dm, i as int);
                        }
                        return None;
                    },
                }
            }
            proof {
                assert(esm.subrange(0, n as int) =~= esm);
                assert(match json_get_spec(content_of(*v), "arguments"@) {
                    Some(JsonModel::Array(es)) => spec_decode_raw_argument_seq(es, dm),
                    Some(_) => None,
                    None => Some(Seq::<RawArgModel>::empty()),
                } == Some(raw_args@.map_values(|x: RawArgument| raw_argument_model(x))));
            }
        },
        None => {
            proof {
                assert(raw_args@.map_values(|x: RawArgument| raw_argument_model(x))
                    =~= Seq::<RawArgModel>::empty());
                assert(match json_get_spec(content_of(*v), "arguments"@) {
                    Some(JsonModel::Array(es)) => spec_decode_raw_argument_seq(es, dm),
                    Some(_) => None,
                    None => Some(Seq::<RawArgModel>::empty()),
                } == Some(raw_args@.map_values(|x: RawArgument| raw_argument_model(x))));
            }
        },
    }
    let ghost rawsm = raw_args@.map_values(|x: RawArgument| raw_argument_model(x));
    let ghost raws_exec = raw_args@;
    let arguments = group_arguments(raw_args);
    let out = AMQPMethod { id, arguments, name, synchronous, metadata: json_null(), is_reply };
    proof {
        lemma_grouped_model(raws_exec);
        assert(out.arguments@.map_values(|a: AMQPArgument| model_of_argument(a@))
            =~= out.arguments@.map_values(|a: AMQPArgument| a@).map_values(
            |am: ArgumentModel| model_of_argument(am),
        ));
        assert(spec_decode_method(content_of(*v), dm) == Some(method_model(out)));
    }
    Some(out)
}

/// Decode one class: id, name, methods and properties. Its metadata slot
/// starts empty; the merge fills it.
#[verifier::loop_isolation(false)]
fn decode_class(v: &serde_json::Value, domains: &Vec<AMQPDomain>) -> (r: Option<AMQPClass>)
    ensures
        r is Some <==> spec_decode_class(
            content_of(*v),
            domains@.map_values(|d: AMQPDomain| domain_model(d)),
        ) is Some,
        r matches Some(c) ==> spec_decode_class(
            content_of(*v),
            domains@.map_values(|d: AMQPDomain| domain_model(d)),
        ) == Some(class_model(c)),
{
    let ghost dm = domains@.map_values(|d: AMQPDomain| domain_model(d));
    let id_raw = match get_u64(v, "id") {
        Some(n) => n,
        None => {
            return None;
        },
    };
    if id_raw > 65535 {
        return None;
    }
    let id: u16 = id_raw as u16;
    let name = match get_str(v, "name") {
        Some(s) => s,
        None => {
            return None;
        },
    };
    let marr = match json_get(v, "methods") {
        Some(mv) => match json_array(mv) {
            Some(a) => a,
            None => {
                return None;
            },
        },
        None => {
            return None;
        },
    };
    let ghost msm = marr@.map_values(|w: serde_json::Value| content_of(w));
    let mut methods: Vec<AMQPMethod> = Vec::new();
    let nm = marr.len();
    for i in 0..nm
        invariant
            nm == marr@.len(),
            dm == domains@.map_values(|d: AMQPDomain| domain_model(d)),
            msm == marr@.map_values(|w: serde_json::Value| content_of(w)),
            spec_decode_method_seq(msm.subrange(0, i as int), dm) == Some(
                methods@.map_values(|m: AMQPMethod| method_model(m)),
            ),
    {
        proof {
            assert(msm[i as int] == content_of(marr@[i as int]));
            assert(msm.subrange(0, i + 1).drop_last() =~= msm.subrange(0, i as int));
            assert(msm.subrange(0, i + 1).last() == msm[i as int]);
        }
        match decode_method(&marr[i], domains) {
            Some(m) => {
                methods.push(m);
                proof {
                    assert(methods@.drop_last().map_values(|x: AMQPMethod| method_model(x)).push(
                        method_model(methods@.last()),
                    ) =~= methods@.map_values(|x: AMQPMethod| method_model(x)));
                }
            },
            None => {
                proof {
                    lemma_method_seq_fails(msm, dm, i as int);
                }
                return None;
            },
        }
    }
    proof {
        assert(msm.subrange(0, nm as int) =~= msm);
    }
    let mut properties: Vec<AMQPProperty> = Vec::new();
    match json_get(v, "properties") {
        Some(pv) => {
            let parr = match json_array(pv) {
                Some(a) => a,
                None => {
                    return None;
                },
            };
            let ghost psm = parr@.map_values(|w: serde_json::Value| content_of(w));
            let np = parr.len();
            for i in 0..np
                invariant
                    np == parr@.len(),
                    dm == domains@.map_values(|d: AMQPDomain| domain_model(d)),
                    psm == parr@.map_values(|w: serde_json::Value| content_of(w)),
                    spec_decode_property_seq(psm.subrange(0, i as int), dm) == Some(
                        properties@.map_values(|p: AMQPProperty| property_model(p)),
                    ),
            {
                proof {
                    assert(psm[i as int] == content_of(parr@[i as int]));
                    assert(psm.subrange(0, i + 1).drop_last() =~= psm.subrange(0, i as int));
                    assert(psm.subrange(0, i + 1).last() == psm[i as int]);
                }
                match decode_property(&parr[i], domains) {
                    Some(p) => {
                        properties.push(p);
                        proof {
                            assert(properties@.drop_last().map_values(
                                |x: AMQPProperty| property_model(x),
                            ).push(property_model(properties@.last())) =~= properties@.map_values(
                                |x: AMQPProperty| property_model(x),
                            ));
                        }
                    },
                    None => {
                        proof {
                            lemma_property_seq_fails(psm, dm, i as int);
                        }
                        return None;
                    },
                }
            }
            proof {
                assert(psm.subrange(0, np as int) =~= psm);
                assert(match json_get_spec(content_of(*v), "properties"@) {
                    Some(JsonModel::Array(es)) => spec_decode_property_seq(es, dm),
                    Some(_) => None,
                    None => Some(Seq::<PropertyModel>::empty()),
                } == Some(properties@.map_values(|p: AMQPProperty| property_model(p))));
            }
        },
        None => {
            proof {
                assert(properties@.map_values(|p: AMQPProperty| property_model(p))
                    =~= Seq::<PropertyModel>::empty());
                assert(match json_get_spec(content_of(*v), "properties"@) {
                    Some(JsonModel::Array(es)) => spec_decode_property_seq(es, dm),
                    Some(_) => None,
                    None => Some(Seq::<PropertyModel>::empty()),
                } == Some(properties@.map_values(|p: AMQPProperty| property_model(p))));
            }
        },
    }
    let out = AMQPClass { id, methods, name, properties, metadata: json_null() };
    proof {
        assert(spec_decode_class(content_of(*v), dm) == Some(class_model(out)));
    }
    Some(out)
}

/// Build the protocol definition from a parsed specification document and a
/// metadata document: exactly `spec_load` of the two documents' content. A
/// definition is only ever returned well formed.
#[verifier::loop_isolation(false)]
pub fn definition_from_document(doc: &serde_json::Value, metadata: &serde_json::Value) -> (r:
    Result<AMQProtocolDefinition, SpecsError>)
    ensures
        r matches Ok(d) ==> spec_load(content_of(*doc), content_of(*metadata))
            == Ok::<DefinitionModel, SpecsError>(definition_model(d)) && d.wf(),
        r matches Err(e) ==> spec_load(content_of(*doc), content_of(*metadata))
            == Err::<DefinitionModel, SpecsError>(e),
{
    let ghost docm = content_of(*doc);
    let ghost metam = content_of(*metadata);
    let name = match get_str(doc, "name") {
        Some(s) => s,
        None => {
            return Err(SpecsError::Malformed);
        },
    };
    let major_raw = match get_u64(doc, "major_version") {
        Some(n) => n,
        None => {
            return Err(SpecsError::Malformed);
        },
    };
    let minor_raw = match get_u64(doc, "minor_version") {
        Some(n) => n,
        None => {
            return Err(SpecsError::Malformed);
        },
    };
    let revision_raw = match get_u64(doc, "revision") {
        Some(n) => n,
        None => {
            return Err(SpecsError::Malformed);
        },
    };
    if major_raw > 255 || minor_raw > 255 || revision_raw > 255 {
        return Err(SpecsError::Malformed);
    }
    let port_raw = match get_u64(doc, "port") {
        Some(n) => n,
        None => {
            return Err(SpecsError::Malformed);
        },
    };
    if port_raw > 4294967295 {
        return Err(SpecsError::Malformed);
    }
    let copyright = match get_str(doc, "copyright") {
        Some(s) => s,
        None => {
            return Err(SpecsError::Malformed);
        },
    };
    let domains = match decode_domains(doc) {
        Some(ds) => ds,
        None => {
            return Err(SpecsError::Malformed);
        },
    };
    let ghost dm = domains@.map_values(|d: AMQPDomain| domain_model(d));
    let classified = match decode_constants(doc) {
        Some(cs) => cs,
        None => {
            return Err(SpecsError::Malformed);
        },
    };
    let ghost pairsm = classified@.map_values(
        |p: (AMQPConstant, ConstantClass)| constant_pair_model(p),
    );
    let carr = match json_get(doc, "classes") {
        Some(cv) => match json_array(cv) {
            Some(a) => a,
            None => {
                return Err(SpecsError::Malformed);
            },
        },
        None => {
            return Err(SpecsError::Malformed);
        },
    };
    let ghost csm = carr@.map_values(|w: serde_json::Value| content_of(w));
    proof {
        lemma_split_model(classified@, ConstantClass::Plain);
        lemma_split_model(classified@, ConstantClass::SoftError);
        lemma_split_model(classified@, ConstantClass::HardError);
    }
    let (constants, soft_errors, hard_errors) = split_constants(classified);
    let mut classes: Vec<AMQPClass> = Vec::new();
    let nc = carr.len();
    for i in 0..nc
        invariant
            nc == carr@.len(),
            dm == domains@.map_values(|d: AMQPDomain| domain_model(d)),
            csm == carr@.map_values(|w: serde_json::Value| content_of(w)),
            spec_decode_class_seq(csm.subrange(0, i as int), dm) == Some(
                classes@.map_values(|c: AMQPClass| class_model(c)),
            ),
    {
        proof {
            assert(csm[i as int] == content_of(carr@[i as int]));
            assert(csm.subrange(0, i + 1).drop_last() =~= csm.subrange(0, i as int));
            assert(csm.subrange(0, i + 1).last() == csm[i as int]);
        }
        match decode_class(&carr[i], &domains) {
            Some(c) => {
                classes.push(c);
                proof {
                    assert(classes@.drop_last().map_values(|x: AMQPClass| class_model(x)).push(
                        class_model(classes@.last()),
                    ) =~= classes@.map_values(|x: AMQPClass| class_model(x)));
                }
            },
            None => {
                proof {
                    lemma_class_seq_fails(csm, dm, i as int);
                }
                return Err(SpecsError::Malformed);
            },
        }
    }
    proof {
        assert(csm.subrange(0, nc as int) =~= csm);
    }
    let ghost decodedm = classes@.map_values(|c: AMQPClass| class_model(c));
    let classes = merge_metadata(classes, metadata);
    let definition = AMQProtocolDefinition {
        name,
        major_version: major_raw as u8,
        minor_version: minor_raw as u8,
        revision: revision_raw as u8,
        port: port_raw as u32,
        copyright,
        domains,
        constants,
        soft_errors,
        hard_errors,
        classes,
    };
    proof {
        assert(definition_model(definition) =~= DefinitionModel {
            name: definition.name@,
            major_version: definition.major_version,
            minor_version: definition.minor_version,
            revision: definition.revision,
            port: definition.port,
            copyright: definition.copyright@,
            domains: dm,
            constants: spec_constants_of_class_model(pairsm, ConstantClass::Plain),
            soft_errors: spec_constants_of_class_model(pairsm, ConstantClass::SoftError),
            hard_errors: spec_constants_of_class_model(pairsm, ConstantClass::HardError),
            classes: spec_merge(decodedm, metam),
        });
        lemma_definition_wf_model(definition);
    }
    if definition_wf_check(&definition) {
        Ok(definition)
    } else {
        Err(SpecsError::Inconsistent)
    }
}

impl AMQProtocolDefinition {
    /// Load the protocol definition from the bundled specification resource,
    /// merging the caller-supplied metadata document (an empty document when
    /// absent) into the classes and methods: exactly `spec_load` of the
    /// bundled text's parse and the metadata's content. The definition is
    /// only ever returned well formed; a malformed bundled resource is a
    /// packaging defect, never a runtime condition.
    pub fn load(metadata: Option<serde_json::Value>) -> (r: Result<
        AMQProtocolDefinition,
        SpecsError,
    >)
        ensures
            r matches Ok(d) ==> {
                &&& json_of(bundled_text()) matches Some(doc) && spec_load(
                    doc,
                    spec_metadata_content(metadata),
                ) == Ok::<DefinitionModel, SpecsError>(definition_model(d))
                &&& d.wf()
            },
            r matches Err(e) ==> match json_of(bundled_text()) {
                Some(doc) => spec_load(doc, spec_metadata_content(metadata))
                    == Err::<DefinitionModel, SpecsError>(e),
                None => e == SpecsError::Malformed,
            },
    {
        let text = bundled_specification();
        let doc = match json_parse(text.as_str()) {
            Ok(v) => v,
            Err(_) => {
                return Err(SpecsError::Malformed);
            },
        };
        let meta = match metadata {
            Some(m) => m,
            None => json_null(),
        };
        definition_from_document(&doc, &meta)
    }
}

/// The content of the optional caller-supplied metadata document: the empty
/// (null) document where absent.
pub open spec fn spec_metadata_content(metadata: Option<serde_json::Value>) -> JsonModel {
    match metadata {
        Some(v) => content_of(v),
        None => JsonModel::Null,
    }
}


/// What the merge keeps of a method shape: everything but the metadata slot.
pub open spec fn model_keeps_method(a: MethodModel, b: MethodModel) -> bool {
    &&& b.id == a.id
    &&& b.name == a.name
    &&& b.arguments == a.arguments
    &&& b.synchronous == a.synchronous
    &&& b.is_reply == a.is_reply
}

/// What the merge keeps of a class shape: everything but the metadata slots
/// of the class and of its methods.
pub open spec fn model_keeps_class(a: ClassModel, b: ClassModel) -> bool {
    &&& b.id == a.id
    &&& b.name == a.name
    &&& b.properties == a.properties
    &&& b.methods.len() == a.methods.len()
    &&& forall|k: int|
        0 <= k < a.methods.len() ==> model_keeps_method(a.methods[k], #[trigger] b.methods[k])
}

/// The merge changes nothing but the metadata slots.
pub proof fn lemma_spec_merge_keeps(cs: Seq<ClassModel>, meta: JsonModel)
    ensures
        spec_merge(cs, meta).len() == cs.len(),
        forall|i: int|
            0 <= i < cs.len() ==> model_keeps_class(cs[i], #[trigger] spec_merge(cs, meta)[i]),
{
    assert forall|i: int|
        0 <= i < cs.len() implies model_keeps_class(cs[i], #[trigger] spec_merge(cs, meta)[i]) by {
        assert(spec_merge(cs, meta)[i] == spec_merged_class(cs[i], meta));
        let b = spec_merged_class(cs[i], meta);
        assert forall|k: int|
            0 <= k < cs[i].methods.len() implies model_keeps_method(
            cs[i].methods[k],
            #[trigger] b.methods[k],
        ) by {
            assert(b.methods[k] == spec_merged_method(
                cs[i].methods[k],
                json_get_spec(meta, cs[i].name),
            ));
        }
    }
}

/// Keeping everything but metadata keeps well-formedness either way.
proof fn lemma_model_keeps_wf(a: ClassModel, b: ClassModel)
    requires
        model_keeps_class(a, b),
    ensures
        a.wf() <==> b.wf(),
{
    if a.wf() {
        assert forall|i: int| 0 <= i < b.methods.len() implies (#[trigger] b.methods[i]).wf() by {
            assert(model_keeps_method(a.methods[i], b.methods[i]));
            assert(a.methods[i].wf());
        }
        assert forall|i: int, j: int|
            0 <= i < j < b.methods.len() implies b.methods[i].id != b.methods[j].id by {
            assert(model_keeps_method(a.methods[i], b.methods[i]));
            assert(model_keeps_method(a.methods[j], b.methods[j]));
        }
    }
    if b.wf() {
        assert forall|i: int| 0 <= i < a.methods.len() implies (#[trigger] a.methods[i]).wf() by {
            assert(model_keeps_method(a.methods[i], b.methods[i]));
            assert(b.methods[i].wf());
        }
        assert forall|i: int, j: int|
            0 <= i < j < a.methods.len() implies a.methods[i].id != a.methods[j].id by {
            assert(model_keeps_method(a.methods[i], b.methods[i]));
            assert(model_keeps_method(a.methods[j], b.methods[j]));
        }
    }
}

/// Loading with one metadata document succeeds exactly when loading the same
/// specification document with any other does, and the two results agree on
/// every protocol-semantic field: the scalars, the domains, the three
/// constant lists, and each class and method up to its metadata slot.
pub proof fn lemma_load_metadata_agnostic(doc: JsonModel, m1: JsonModel, m2: JsonModel)
    ensures
        spec_load(doc, m1) is Ok <==> spec_load(doc, m2) is Ok,
        spec_load(doc, m1) matches Ok(d1) ==> spec_load(doc, m2) matches Ok(d2) ==> {
            &&& d1.name == d2.name
            &&& d1.major_version == d2.major_version
            &&& d1.minor_version == d2.minor_version
            &&& d1.revision == d2.revision
            &&& d1.port == d2.port
            &&& d1.copyright == d2.copyright
            &&& d1.domains == d2.domains
            &&& d1.constants == d2.constants
            &&& d1.soft_errors == d2.soft_errors
            &&& d1.hard_errors == d2.hard_errors
            &&& d1.classes.len() == d2.classes.len()
            &&& forall|i: int|
                0 <= i < d1.classes.len() ==> model_keeps_class(
                    d1.classes[i],
                    #[trigger] d2.classes[i],
                )
        },
{
    match spec_decode_domains(doc) {
        None => {},
        Some(domains) => match spec_decode_classes(doc, domains) {
            None => {},
            Some(cs) => {
                lemma_spec_merge_keeps(cs, m1);
                lemma_spec_merge_keeps(cs, m2);
                let c1 = spec_merge(cs, m1);
                let c2 = spec_merge(cs, m2);
                assert forall|i: int|
                    0 <= i < cs.len() implies model_keeps_class(c1[i], #[trigger] c2[i]) by {
                    assert(model_keeps_class(cs[i], c1[i]));
                    assert(model_keeps_class(cs[i], c2[i]));
                    assert forall|k: int|
                        0 <= k < c1[i].methods.len() implies model_keeps_method(
                        c1[i].methods[k],
                        #[trigger] c2[i].methods[k],
                    ) by {
                        assert(model_keeps_method(cs[i].methods[k], c1[i].methods[k]));
                        assert(model_keeps_method(cs[i].methods[k], c2[i].methods[k]));
                    }
                }
                assert forall|i: int|
                    0 <= i < cs.len() implies ((#[trigger] c1[i]).wf() <==> c2[i].wf()) by {
                    lemma_model_keeps_wf(cs[i], c1[i]);
                    lemma_model_keeps_wf(cs[i], c2[i]);
                }
                assert forall|i: int, j: int|
                    0 <= i < j < cs.len() implies (c1[i].id != c1[j].id <==> c2[i].id
                        != c2[j].id) by {
                    assert(model_keeps_class(cs[i], c1[i]));
                    assert(model_keeps_class(cs[j], c1[j]));
                    assert(model_keeps_class(cs[i], c2[i]));
                    assert(model_keeps_class(cs[j], c2[j]));
                }
            },
        },
    }
}

/// Loading without metadata is loading with the empty metadata document: the
/// absent document defaults to empty, and merging an empty document attaches
/// nothing.
pub proof fn lemma_load_empty_metadata(doc: JsonModel)
    ensures
        spec_load(doc, JsonModel::Null) == spec_load(
            doc,
            JsonModel::Object(Seq::empty()),
        ),
{
    match spec_decode_domains(doc) {
        None => {},
        Some(domains) => match spec_decode_classes(doc, domains) {
            None => {},
            Some(cs) => {
                assert forall|i: int|
                    0 <= i < cs.len() implies #[trigger] spec_merge(cs, JsonModel::Null)[i]
                    == spec_merge(cs, JsonModel::Object(Seq::empty()))[i] by {
                    assert(json_get_spec(JsonModel::Null, cs[i].name) is None);
                    assert(assoc_lookup(Seq::empty(), cs[i].name) is None);
                    assert(spec_merged_class(cs[i], JsonModel::Null).methods
                        =~= spec_merged_class(cs[i], JsonModel::Object(Seq::empty())).methods);
                    assert(spec_merged_class(cs[i], JsonModel::Null) =~= spec_merged_class(
                        cs[i],
                        JsonModel::Object(Seq::empty()),
                    ));
                }
                assert(spec_merge(cs, JsonModel::Null) =~= spec_merge(
                    cs,
                    JsonModel::Object(Seq::empty()),
                ));
            },
        },
    }
}

} // verus!
