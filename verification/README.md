# arrakis_integration

One operation traced through every ARRAKIS layer: a program is compiled,
published to a repository, indexed in a SQL registry, pushed over a hostile
network, agreed on by a consensus cluster, fetched and verified by a consumer,
and run there under an attenuated capability.

`src/` is the verified library: the trace and its rendering, the text each
layer records, the checks that make every hop agree with the one before it,
the controller of the consensus step, and the reading of the demonstration
program's arguments. `app/` is the program that drives the layers themselves
and hands their observations to the library. `tests/` exercises the library.
