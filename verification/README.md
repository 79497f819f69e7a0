# wgpu_mc_jni

The native interface between a Minecraft client and its renderer. The library under `src/` holds
what the interface decides and computes, verified with Verus; `app/` holds the entry points that
the virtual machine calls, the window, and the calls into the rendering engine.

| module       | what it is about                                                          |
|--------------|---------------------------------------------------------------------------|
| `jvalue`     | numbers that cross the border with their bits unchanged                   |
| `words`      | words, their bytes, and the order of bytes in memory                      |
| `matrix`     | matrices of single-precision numbers, held as bits                        |
| `gl`         | graphics calls, recorded as commands and handed on in batches             |
| `blit`       | copying rows of bytes into a larger image                                 |
| `texture`    | texture images: new ones, and parts that replace a part of one            |
| `event`      | messages to the window's thread and its answers to events                 |
| `startup`    | how everything stands at first                                            |
| `stream`     | byte streams, read piece by piece                                         |
| `chunk`      | blocks and the numbers that stand for them                                |
| `registry`   | making blocks known, with a text that stands in for a broken one          |
| `shaderpack` | the configuration of shader packs and its version                         |

Floating-point numbers are carried as their bits; arithmetic on them is done in `app/`. The
rendering engine is reached through the `Engine` trait of `app/`, which an engine installs.
